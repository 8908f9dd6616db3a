//! The Codex command line: its events, its arguments, and where its releases are found.
use vstd::prelude::*;
use crate::json::{as_record, as_text, as_unsigned, get_text, get_unsigned, get_value, json_of, key_views, member, member_text, members_are_found_by_their_key, numbers_are_found_by_their_key, parse_json, record, says_number, says_text, settled, stands_under, strings_are_found_by_their_key, text_member, text_value, unsigned_member, unsigned_value, value_member, Json, JsonView};
use crate::record::{read_shape, shape_of};
use crate::text::{cat2, cat3, cat5, opt_view, same, views};

verus! {

/// Token usage reported when a turn is completed.
#[derive(Clone, Copy, Debug)]
pub struct CodexUsage {
    pub input_tokens: u64,
    pub cached_input_tokens: u64,
    pub output_tokens: u64,
}

/// An event on the output of `codex exec --json`; values are held as JSON text.
#[derive(Debug)]
pub enum CodexJsonlEvent {
    ThreadStarted { thread_id: String },
    TurnStarted,
    ItemStarted { item: String },
    ItemCompleted { item: String },
    TurnCompleted { usage: CodexUsage },
    TurnFailed { error: String },
    Error { message: String },
    ExecApprovalRequest { item: String },
}

pub enum EventView {
    ThreadStarted(Seq<char>),
    TurnStarted,
    ItemStarted(Seq<char>),
    ItemCompleted(Seq<char>),
    TurnCompleted(CodexUsage),
    TurnFailed(Seq<char>),
    Error(Seq<char>),
    ExecApprovalRequest(Seq<char>),
}

impl CodexJsonlEvent {
    pub open spec fn view(&self) -> EventView {
        match self {
            CodexJsonlEvent::ThreadStarted { thread_id } => EventView::ThreadStarted(thread_id@),
            CodexJsonlEvent::TurnStarted => EventView::TurnStarted,
            CodexJsonlEvent::ItemStarted { item } => EventView::ItemStarted(item@),
            CodexJsonlEvent::ItemCompleted { item } => EventView::ItemCompleted(item@),
            CodexJsonlEvent::TurnCompleted { usage } => EventView::TurnCompleted(*usage),
            CodexJsonlEvent::TurnFailed { error } => EventView::TurnFailed(error@),
            CodexJsonlEvent::Error { message } => EventView::Error(message@),
            CodexJsonlEvent::ExecApprovalRequest { item } => EventView::ExecApprovalRequest(item@),
        }
    }
}

/// Token usage of a session so far.
#[derive(Clone, Copy, Debug)]
pub struct TokenUsageAccum {
    pub input_tokens: u64,
    pub cached_input_tokens: u64,
    pub output_tokens: u64,
}

/// The sums of the three counts.
pub struct UsageView {
    pub input: int,
    pub cached: int,
    pub output: int,
}

impl TokenUsageAccum {
    pub open spec fn view(&self) -> UsageView {
        UsageView {
            input: self.input_tokens as int,
            cached: self.cached_input_tokens as int,
            output: self.output_tokens as int,
        }
    }

    /// Adds the usage of a turn; the sums have to fit 64 bits.
    pub fn add(&mut self, usage: &CodexUsage)
        requires
            usage_fits(usage_plus(old(self)@, *usage)),
        ensures
            final(self)@ == usage_plus(old(self)@, *usage),
    {
        self.input_tokens = self.input_tokens + usage.input_tokens;
        self.cached_input_tokens = self.cached_input_tokens + usage.cached_input_tokens;
        self.output_tokens = self.output_tokens + usage.output_tokens;
    }
}

impl Default for TokenUsageAccum {
    fn default() -> (r: TokenUsageAccum)
        ensures
            r@ == (UsageView { input: 0, cached: 0, output: 0 }),
    {
        TokenUsageAccum { input_tokens: 0, cached_input_tokens: 0, output_tokens: 0 }
    }
}

pub open spec fn usage_plus(u: UsageView, more: CodexUsage) -> UsageView {
    UsageView {
        input: u.input + more.input_tokens,
        cached: u.cached + more.cached_input_tokens,
        output: u.output + more.output_tokens,
    }
}

pub open spec fn usage_fits(u: UsageView) -> bool {
    u.input <= u64::MAX && u.cached <= u64::MAX && u.output <= u64::MAX
}

// ---- Reading the output ----

/// The keys of a report of usage, in order.
pub open spec fn usage_keys() -> Seq<Seq<char>> {
    seq!["input_tokens"@, "cached_input_tokens"@, "output_tokens"@]
}

/// The usage that a JSON text reports; in an object the count of cached tokens may be missing.
pub open spec fn usage_of(t: Seq<char>) -> Option<CodexUsage> {
    match record(shape_of(t), usage_keys()) {
        None => None,
        Some(u) => {
            let cached = match member(u, "cached_input_tokens"@) {
                None => Some(0u64),
                Some(c) => unsigned_value(c),
            };
            match (
                unsigned_member(u, "input_tokens"@),
                cached,
                unsigned_member(u, "output_tokens"@),
            ) {
                (Some(input_tokens), Some(cached_input_tokens), Some(output_tokens)) => Some(
                    CodexUsage { input_tokens, cached_input_tokens, output_tokens },
                ),
                _ => None,
            }
        },
    }
}

/// The keys of an event of a type, in order: the type, and what the event holds.
pub open spec fn event_keys(event_type: Seq<char>) -> Seq<Seq<char>> {
    if event_type == "thread.started"@ {
        seq!["type"@, "thread_id"@]
    } else if event_type == "item.started"@ || event_type == "item.completed"@ || event_type
        == "exec.approval.request"@ {
        seq!["type"@, "item"@]
    } else if event_type == "turn.completed"@ {
        seq!["type"@, "usage"@]
    } else if event_type == "turn.failed"@ {
        seq!["type"@, "error"@]
    } else if event_type == "error"@ {
        seq!["type"@, "message"@]
    } else {
        seq!["type"@]
    }
}

fn event_key_list(event_type: &str) -> (r: Vec<&'static str>)
    ensures
        key_views(r@) == event_keys(event_type@),
{
    let mut keys: Vec<&'static str> = Vec::new();
    keys.push("type");
    if same(event_type, "thread.started") {
        keys.push("thread_id");
    } else if same(event_type, "item.started") || same(event_type, "item.completed") || same(
        event_type,
        "exec.approval.request",
    ) {
        keys.push("item");
    } else if same(event_type, "turn.completed") {
        keys.push("usage");
    } else if same(event_type, "turn.failed") {
        keys.push("error");
    } else if same(event_type, "error") {
        keys.push("message");
    }
    assert(key_views(keys@) =~= event_keys(event_type@));
    keys
}

/// The type of the event that a JSON value describes: under `type`, or the first item of an array.
pub open spec fn event_type_in(j: JsonView) -> Option<Seq<char>> {
    match j {
        JsonView::Array(items) => if items.len() == 0 {
            None
        } else {
            text_value(items[0])
        },
        _ => text_member(j, "type"@),
    }
}

/// The event that a JSON value describes: an object in which no member of the event comes twice, or
/// an array that begins with the type.
pub open spec fn event_in(j: JsonView) -> Option<EventView> {
    match event_type_in(j) {
        None => None,
        Some(t) => match record(j, event_keys(t)) {
            None => None,
            Some(o) => event_of(o),
        },
    }
}

/// The event on a line of the output.
pub open spec fn event_on(line: Seq<char>) -> Option<EventView> {
    if json_of(line) is Ok {
        event_in(shape_of(line))
    } else {
        None
    }
}

/// The event that an object describes, with its type under `type`.
pub open spec fn event_of(j: JsonView) -> Option<EventView> {
    match text_member(j, "type"@) {
        None => None,
        Some(t) => if t == "thread.started"@ {
            match text_member(j, "thread_id"@) {
                Some(i) => Some(EventView::ThreadStarted(i)),
                None => None,
            }
        } else if t == "turn.started"@ {
            Some(EventView::TurnStarted)
        } else if t == "item.started"@ {
            match value_member(j, "item"@) {
                Some(i) => Some(EventView::ItemStarted(i)),
                None => None,
            }
        } else if t == "item.completed"@ {
            match value_member(j, "item"@) {
                Some(i) => Some(EventView::ItemCompleted(i)),
                None => None,
            }
        } else if t == "turn.completed"@ {
            match member(j, "usage"@) {
                Some(u) => match usage_of(u) {
                    Some(u) => Some(EventView::TurnCompleted(u)),
                    None => None,
                },
                None => None,
            }
        } else if t == "turn.failed"@ {
            match value_member(j, "error"@) {
                Some(e) => Some(EventView::TurnFailed(e)),
                None => None,
            }
        } else if t == "error"@ {
            match text_member(j, "message"@) {
                Some(m) => Some(EventView::Error(m)),
                None => None,
            }
        } else if t == "exec.approval.request"@ {
            match value_member(j, "item"@) {
                Some(i) => Some(EventView::ExecApprovalRequest(i)),
                None => None,
            }
        } else {
            None
        },
    }
}

pub open spec fn event_view(e: Option<CodexJsonlEvent>) -> Option<EventView> {
    match e {
        Some(e) => Some(e@),
        None => None,
    }
}

fn read_usage(t: &str) -> (r: Option<CodexUsage>)
    ensures
        r == usage_of(t@),
{
    let mut keys: Vec<&'static str> = Vec::new();
    keys.push("input_tokens");
    keys.push("cached_input_tokens");
    keys.push("output_tokens");
    assert(key_views(keys@) =~= usage_keys());
    let u = match as_record(&read_shape(t), &keys) {
        Some(u) => u,
        None => {
            return None;
        },
    };
    let cached = match member_text(&u, "cached_input_tokens") {
        None => Some(0u64),
        Some(c) => as_unsigned(&c),
    };
    match (get_unsigned(&u, "input_tokens"), cached, get_unsigned(&u, "output_tokens")) {
        (Some(input_tokens), Some(cached_input_tokens), Some(output_tokens)) => Some(
            CodexUsage { input_tokens, cached_input_tokens, output_tokens },
        ),
        _ => None,
    }
}

/// The event that a JSON value describes.
pub fn read_event(j: &Json) -> (r: Option<CodexJsonlEvent>)
    ensures
        event_view(r) == event_in(j@),
{
    let event_type = match j {
        Json::Array(items) => {
            if items.len() == 0 {
                return None;
            }
            assert(views(items@)[0] == items@[0]@);
            as_text(&items[0])
        },
        _ => get_text(j, "type"),
    };
    match event_type {
        None => None,
        Some(t) => match as_record(j, &event_key_list(&t)) {
            None => None,
            Some(o) => read_object(&o),
        },
    }
}

fn read_object(j: &Json) -> (r: Option<CodexJsonlEvent>)
    ensures
        event_view(r) == event_of(j@),
{
    let t = match get_text(j, "type") {
        None => {
            return None;
        },
        Some(t) => t,
    };
    if same(&t, "thread.started") {
        match get_text(j, "thread_id") {
            Some(thread_id) => Some(CodexJsonlEvent::ThreadStarted { thread_id }),
            None => None,
        }
    } else if same(&t, "turn.started") {
        Some(CodexJsonlEvent::TurnStarted)
    } else if same(&t, "item.started") {
        match get_value(j, "item") {
            Some(item) => Some(CodexJsonlEvent::ItemStarted { item }),
            None => None,
        }
    } else if same(&t, "item.completed") {
        match get_value(j, "item") {
            Some(item) => Some(CodexJsonlEvent::ItemCompleted { item }),
            None => None,
        }
    } else if same(&t, "turn.completed") {
        match member_text(j, "usage") {
            Some(u) => match read_usage(&u) {
                Some(usage) => Some(CodexJsonlEvent::TurnCompleted { usage }),
                None => None,
            },
            None => None,
        }
    } else if same(&t, "turn.failed") {
        match get_value(j, "error") {
            Some(error) => Some(CodexJsonlEvent::TurnFailed { error }),
            None => None,
        }
    } else if same(&t, "error") {
        match get_text(j, "message") {
            Some(message) => Some(CodexJsonlEvent::Error { message }),
            None => None,
        }
    } else if same(&t, "exec.approval.request") {
        match get_value(j, "item") {
            Some(item) => Some(CodexJsonlEvent::ExecApprovalRequest { item }),
            None => None,
        }
    } else {
        None
    }
}

/// The event on a line of the output; lines that hold no event are passed over.
pub fn parse_jsonl_line(line: &str) -> (r: Option<CodexJsonlEvent>)
    ensures
        event_view(r) == event_on(line@),
{
    if parse_json(line).is_err() {
        return None;
    }
    let j = read_shape(line);
    read_event(&j)
}

// ---- Starting the process ----

/// Configuration for starting a Codex process.
pub struct CodexSpawnConfig {
    pub binary_path: String,
    pub model: String,
    pub api_token: String,
    pub base_url: Option<String>,
    pub project_dir: String,
}

/// A process to start.
pub struct SpawnPlan {
    pub program: String,
    pub args: Vec<String>,
    pub env: Vec<(String, String)>,
    pub current_dir: String,
}

/// The arguments of `codex exec`, with `resume` where a session is given.
pub open spec fn exec_args(model: Seq<char>, prompt: Seq<char>, session_id: Option<Seq<char>>) -> Seq<
    Seq<char>,
> {
    (match session_id {
        Some(sid) => seq!["exec"@, "resume"@, sid],
        None => seq!["exec"@],
    }) + seq![
        "--json"@,
        "--model"@,
        model,
        "--skip-git-repo-check"@,
        "--color"@,
        "never"@,
        prompt,
    ]
}

/// The environment of the process.
pub open spec fn exec_env(api_token: Seq<char>, base_url: Option<Seq<char>>) -> Seq<
    (Seq<char>, Seq<char>),
> {
    match base_url {
        Some(u) => seq![("CODEX_API_KEY"@, api_token), ("OPENAI_BASE_URL"@, u)],
        None => seq![("CODEX_API_KEY"@, api_token)],
    }
}

/// The process that runs a prompt, in a new session or in a given one.
pub fn spawn_codex_exec(config: &CodexSpawnConfig, prompt: &str, session_id: &Option<String>) -> (r:
    SpawnPlan)
    ensures
        r.program == config.binary_path,
        r.current_dir == config.project_dir,
        views(r.args@) == exec_args(config.model@, prompt@, opt_view(*session_id)),
        crate::json::member_views(r.env@) == exec_env(config.api_token@, opt_view(config.base_url)),
{
    let mut args: Vec<String> = Vec::new();
    args.push("exec".to_owned());
    if let Some(sid) = session_id {
        args.push("resume".to_owned());
        args.push(sid.clone());
    }
    args.push("--json".to_owned());
    args.push("--model".to_owned());
    args.push(config.model.clone());
    args.push("--skip-git-repo-check".to_owned());
    args.push("--color".to_owned());
    args.push("never".to_owned());
    args.push(prompt.to_owned());
    assert(views(args@) =~= exec_args(config.model@, prompt@, opt_view(*session_id)));
    let mut env: Vec<(String, String)> = Vec::new();
    env.push(("CODEX_API_KEY".to_owned(), config.api_token.clone()));
    if let Some(u) = &config.base_url {
        env.push(("OPENAI_BASE_URL".to_owned(), u.clone()));
    }
    assert(crate::json::member_views(env@) =~= exec_env(
        config.api_token@,
        opt_view(config.base_url),
    ));
    SpawnPlan {
        program: config.binary_path.clone(),
        args,
        env,
        current_dir: config.project_dir.clone(),
    }
}

// ---- Releases ----

/// The release for an operating system and an architecture.
pub open spec fn release_target(os: Seq<char>, arch: Seq<char>) -> Option<Seq<char>> {
    if os == "linux"@ && arch == "x86_64"@ {
        Some("codex-x86_64-unknown-linux-musl"@)
    } else if os == "linux"@ && arch == "aarch64"@ {
        Some("codex-aarch64-unknown-linux-musl"@)
    } else if os == "macos"@ && arch == "x86_64"@ {
        Some("codex-x86_64-apple-darwin"@)
    } else if os == "macos"@ && arch == "aarch64"@ {
        Some("codex-aarch64-apple-darwin"@)
    } else {
        None
    }
}

pub open spec fn release_url(target: Seq<char>) -> Seq<char> {
    "https://github.com/openai/codex/releases/latest/download/"@ + target + ".tar.gz"@
}

/// The address of the latest release for a platform.
pub fn detect_platform_tarball_url(os: &str, arch: &str) -> (r: Option<String>)
    ensures
        opt_view(r) == match release_target(os@, arch@) {
            Some(t) => Some(release_url(t)),
            None => None,
        },
{
    let target = if same(os, "linux") && same(arch, "x86_64") {
        "codex-x86_64-unknown-linux-musl"
    } else if same(os, "linux") && same(arch, "aarch64") {
        "codex-aarch64-unknown-linux-musl"
    } else if same(os, "macos") && same(arch, "x86_64") {
        "codex-x86_64-apple-darwin"
    } else if same(os, "macos") && same(arch, "aarch64") {
        "codex-aarch64-apple-darwin"
    } else {
        return None;
    };
    Some(
        cat3("https://github.com/openai/codex/releases/latest/download/", target, ".tar.gz"),
    )
}

/// The step of downloading the tool that failed.
pub enum DownloadStep {
    Platform,
    Request,
    Status,
    Body,
    MakeDirectory,
    OpenArchive,
    ReadEntry,
    EntryPath,
    Unpack,
    SetPermissions,
    Find,
}

/// Why the tool could not be downloaded, on a platform; `status` is what the server answered.
pub fn download_error(step: DownloadStep, os: &str, arch: &str, status: &str) -> (r: String)
    ensures
        r@ == match step {
            DownloadStep::Platform => "unsupported platform (os="@ + os@ + ", arch="@ + arch@
                + ") for codex binary download"@,
            DownloadStep::Request => "failed to download codex binary"@,
            DownloadStep::Status => "failed to download codex binary: HTTP "@ + status@,
            DownloadStep::Body => "failed to read codex binary response body"@,
            DownloadStep::MakeDirectory => "failed to create codex binary parent directory"@,
            DownloadStep::OpenArchive => "failed to read tar archive entries"@,
            DownloadStep::ReadEntry => "failed to read tar entry"@,
            DownloadStep::EntryPath => "failed to get tar entry path"@,
            DownloadStep::Unpack => "failed to extract codex binary"@,
            DownloadStep::SetPermissions => "failed to set codex binary permissions"@,
            DownloadStep::Find => "codex binary not found in downloaded archive"@,
        },
{
    match step {
        DownloadStep::Platform => cat5(
            "unsupported platform (os=",
            os,
            ", arch=",
            arch,
            ") for codex binary download",
        ),
        DownloadStep::Request => "failed to download codex binary".to_owned(),
        DownloadStep::Status => cat2("failed to download codex binary: HTTP ", status),
        DownloadStep::Body => "failed to read codex binary response body".to_owned(),
        DownloadStep::MakeDirectory => "failed to create codex binary parent directory".to_owned(),
        DownloadStep::OpenArchive => "failed to read tar archive entries".to_owned(),
        DownloadStep::ReadEntry => "failed to read tar entry".to_owned(),
        DownloadStep::EntryPath => "failed to get tar entry path".to_owned(),
        DownloadStep::Unpack => "failed to extract codex binary".to_owned(),
        DownloadStep::SetPermissions => "failed to set codex binary permissions".to_owned(),
        DownloadStep::Find => "codex binary not found in downloaded archive".to_owned(),
    }
}

// ---- Release archives ----

/// Where the part of a path that ends at `end` begins: behind the last slash before it.
pub open spec fn part_start(path: Seq<u8>, end: int) -> int
    decreases end,
{
    if end <= 0 || path[end - 1] == 47 {
        end
    } else {
        part_start(path, end - 1)
    }
}

/// The file name of a path up to `end`: its last part, empty parts and parts that are a single dot
/// aside; none where there is no such part, or where it is two dots.
pub open spec fn file_name_to(path: Seq<u8>, end: int) -> Option<Seq<u8>>
    decreases end,
{
    let start = part_start(path, end);
    let part = path.subrange(start, end);
    if part.len() == 0 || part == seq![46u8] {
        if start <= 0 || start > end {
            None
        } else {
            file_name_to(path, start - 1)
        }
    } else if part == seq![46u8, 46u8] {
        None
    } else {
        Some(part)
    }
}

/// The file name of a path whose parts are separated by slashes.
pub open spec fn file_name(path: Seq<u8>) -> Option<Seq<u8>> {
    file_name_to(path, path.len() as int)
}

/// A file name of the program: one that begins with `codex`.
pub open spec fn program_name(name: Seq<u8>) -> bool {
    seq![99u8, 111u8, 100u8, 101u8, 120u8].is_prefix_of(name)
}

/// A path of the program in a release archive.
pub open spec fn program_path(path: Seq<u8>) -> bool {
    match file_name(path) {
        Some(name) => program_name(name),
        None => false,
    }
}

/// Whether a path in a release archive is one of the program.
pub fn is_program_path(path: &Vec<u8>) -> (r: bool)
    ensures
        r == program_path(path@),
{
    let mut end: usize = path.len();
    loop
        invariant
            end <= path@.len(),
            program_path(path@) == match file_name_to(path@, end as int) {
                Some(name) => program_name(name),
                None => false,
            },
        decreases end,
    {
        let mut start: usize = end;
        while start > 0 && path[start - 1] != 47
            invariant
                start <= end <= path@.len(),
                part_start(path@, end as int) == part_start(path@, start as int),
            decreases start,
        {
            start = start - 1;
        }
        let ghost part = path@.subrange(start as int, end as int);
        assert(part_start(path@, end as int) == start);
        if start == end || (end - start == 1 && path[start] == 46) {
            proof {
                assert(part.len() == 0 || part =~= seq![46u8]);
            }
            if start == 0 {
                return false;
            }
            end = start - 1;
            continue;
        }
        proof {
            assert(part.len() > 0);
            if part == seq![46u8] {
                assert(part[0] == path@[start as int]);
            }
        }
        if end - start == 2 && path[start] == 46 && path[start + 1] == 46 {
            assert(part =~= seq![46u8, 46u8]);
            return false;
        }
        proof {
            if part == seq![46u8, 46u8] {
                assert(part[0] == path@[start as int]);
                assert(part[1] == path@[start + 1]);
            }
        }
        let found = end - start >= 5 && path[start] == 99 && path[start + 1] == 111 && path[start
            + 2] == 100 && path[start + 3] == 101 && path[start + 4] == 120;
        proof {
            let want = seq![99u8, 111u8, 100u8, 101u8, 120u8];
            if found {
                assert(part.subrange(0, 5) =~= want);
            } else if want.is_prefix_of(part) {
                assert(part.subrange(0, 5) == want);
                assert(forall|i: int| 0 <= i < 5 ==> #[trigger] part.subrange(0, 5)[i] == path@[start + i]);
            }
        }
        return found;
    }
}

pub open spec fn path_views(paths: Seq<Option<Vec<u8>>>) -> Seq<Option<Seq<u8>>> {
    paths.map_values(
        |p: Option<Vec<u8>>|
            match p {
                Some(path) => Some(path@),
                None => None,
            },
    )
}

/// The place of the program among the entries of a release archive from the `i`-th on: the first
/// entry with a path of the program. An entry that cannot be read fails the search, unless the
/// program comes before it.
pub open spec fn program_from(paths: Seq<Option<Seq<u8>>>, i: int) -> Result<int, DownloadStep>
    decreases paths.len() - i,
{
    if i < 0 || i >= paths.len() {
        Err(DownloadStep::Find)
    } else {
        match paths[i] {
            None => Err(DownloadStep::ReadEntry),
            Some(path) => if program_path(path) {
                Ok(i)
            } else {
                program_from(paths, i + 1)
            },
        }
    }
}

pub open spec fn place_view(r: Result<usize, DownloadStep>) -> Result<int, DownloadStep> {
    match r {
        Ok(i) => Ok(i as int),
        Err(e) => Err(e),
    }
}

/// The place of the program among the entries of a release archive, given the path of each entry;
/// none stands for an entry that could not be read.
pub fn program_among(paths: &Vec<Option<Vec<u8>>>) -> (r: Result<usize, DownloadStep>)
    ensures
        place_view(r) == program_from(path_views(paths@), 0),
{
    let ghost pv = path_views(paths@);
    let mut i: usize = 0;
    while i < paths.len()
        invariant
            i <= paths@.len(),
            pv == path_views(paths@),
            program_from(pv, 0) == program_from(pv, i as int),
        decreases paths@.len() - i,
    {
        match &paths[i] {
            None => {
                assert(pv[i as int] is None);
                return Err(DownloadStep::ReadEntry);
            },
            Some(path) => {
                assert(pv[i as int] == Some(path@));
                if is_program_path(path) {
                    return Ok(i);
                }
            },
        }
        i = i + 1;
    }
    Err(DownloadStep::Find)
}

/// A header of an archive.
pub struct ArchiveMember {
    pub kind: u8,
    /// Whether a list of the blocks of a sparse file goes on in headers of its own.
    pub extended: bool,
    /// The keys of the extension that the header stands for.
    pub keys: Vec<Vec<u8>>,
}

pub struct MemberView {
    pub kind: u8,
    pub extended: bool,
    pub keys: Seq<Seq<u8>>,
}

pub open spec fn byte_views(v: Seq<Vec<u8>>) -> Seq<Seq<u8>> {
    v.map_values(|b: Vec<u8>| b@)
}

impl ArchiveMember {
    pub open spec fn view(&self) -> MemberView {
        MemberView { kind: self.kind, extended: self.extended, keys: byte_views(self.keys@) }
    }
}

pub open spec fn archive_views(v: Seq<ArchiveMember>) -> Seq<MemberView> {
    v.map_values(|m: ArchiveMember| m@)
}

/// The headers that `tar` reads out of the compressed bytes of an archive, up to the first that it
/// cannot read, before it joins those that belong to one entry.
pub uninterp spec fn archive_members_of(bytes: Seq<u8>) -> Seq<MemberView>;

/// The entries that `tar` reads out of the compressed bytes of an archive: the path of each, or none
/// for one that it cannot read.
pub uninterp spec fn archive_paths_of(bytes: Seq<u8>) -> Seq<Option<Seq<u8>>>;

/// `tar::Entries` over `flate2::read::GzDecoder`, in its raw form: the type of each header, whether
/// it says that the blocks of a sparse file go on, and the keys of its `PaxExtensions`. Known by the
/// name `archive_members_of` only.
#[verifier::external_body]
fn archive_members(bytes: &Vec<u8>) -> (r: Vec<ArchiveMember>)
    ensures
        archive_views(r@) == archive_members_of(bytes@),
{
    let mut archive = tar::Archive::new(flate2::read::GzDecoder::new(bytes.as_slice()));
    let raw = archive.entries().into_iter().flat_map(|all| all.raw(true)).map_while(Result::ok);
    let members = raw.map(|mut e| ArchiveMember {
        kind: e.header().entry_type().as_byte(),
        extended: e.header().as_gnu().map_or(false, |h| h.is_extended()),
        keys: e.pax_extensions().ok().flatten().into_iter().flatten()
            .map_while(Result::ok).map(|x| x.key_bytes().to_vec()).collect(),
    });
    members.collect()
}

/// A header after which the positions in an archive are not those that the headers alone give: the
/// blocks of a sparse file go on behind it, or it is an extension that holds a size.
pub open spec fn displaces(m: MemberView) -> bool {
    (m.kind == 83 && m.extended) || m.keys.contains(seq![115u8, 105u8, 122u8, 101u8])
}

/// One of the headers does.
pub open spec fn any_displaces(members: Seq<MemberView>) -> bool {
    exists|i: int| 0 <= i < members.len() && displaces(#[trigger] members[i])
}

/// `tar::Entries` over `flate2::read::GzDecoder`, with `path_bytes` of each entry; known by the name
/// `archive_paths_of` only. Where the blocks of a sparse file go on behind its header, `tar` adds up
/// positions without a check, and a sum can overflow; without such a header, and without an extension
/// that moves the headers behind it, it does not.
#[verifier::external_body]
fn archive_paths(bytes: &Vec<u8>) -> (r: Vec<Option<Vec<u8>>>)
    requires
        !any_displaces(archive_members_of(bytes@)),
    ensures
        path_views(r@) == archive_paths_of(bytes@),
{
    let mut archive = tar::Archive::new(flate2::read::GzDecoder::new(bytes.as_slice()));
    let entries = archive.entries().into_iter().flatten();
    let paths = entries.map(|e| e.ok().map(|e| e.path_bytes().into_owned()));
    paths.collect()
}

fn is_size(key: &Vec<u8>) -> (r: bool)
    ensures
        r == (key@ == seq![115u8, 105u8, 122u8, 101u8]),
{
    let r = key.len() == 4 && key[0] == 115 && key[1] == 105 && key[2] == 122 && key[3] == 101;
    proof {
        if r {
            assert(key@ =~= seq![115u8, 105u8, 122u8, 101u8]);
        }
    }
    r
}

fn member_displaces(m: &ArchiveMember) -> (r: bool)
    ensures
        r == displaces(m@),
{
    if m.kind == 83 && m.extended {
        return true;
    }
    let ghost kv = byte_views(m.keys@);
    let mut i: usize = 0;
    while i < m.keys.len()
        invariant
            i <= m.keys@.len(),
            kv == byte_views(m.keys@),
            forall|k: int| 0 <= k < i ==> #[trigger] kv[k] != seq![115u8, 105u8, 122u8, 101u8],
        decreases m.keys@.len() - i,
    {
        assert(kv[i as int] == m.keys@[i as int]@);
        if is_size(&m.keys[i]) {
            assert(kv.contains(seq![115u8, 105u8, 122u8, 101u8]));
            return true;
        }
        i = i + 1;
    }
    false
}

/// Whether one of the headers moves those behind it.
pub fn members_displace(members: &Vec<ArchiveMember>) -> (r: bool)
    ensures
        r == any_displaces(archive_views(members@)),
{
    let ghost mv = archive_views(members@);
    let mut i: usize = 0;
    while i < members.len()
        invariant
            i <= members@.len(),
            mv == archive_views(members@),
            forall|k: int| 0 <= k < i ==> !displaces(#[trigger] mv[k]),
        decreases members@.len() - i,
    {
        assert(mv[i as int] == members@[i as int]@);
        if member_displaces(&members[i]) {
            return true;
        }
        i = i + 1;
    }
    false
}

/// The place of the program among the entries of a compressed release archive. None where the
/// archive is not searched: it holds a sparse file whose list of blocks goes on, or a size in an
/// extension.
pub fn program_in_archive(bytes: &Vec<u8>) -> (r: Option<Result<usize, DownloadStep>>)
    ensures
        match r {
            None => any_displaces(archive_members_of(bytes@)),
            Some(place) => !any_displaces(archive_members_of(bytes@)) && place_view(place)
                == program_from(archive_paths_of(bytes@), 0),
        },
{
    let members = archive_members(bytes);
    if members_displace(&members) {
        return None;
    }
    let paths = archive_paths(bytes);
    Some(program_among(&paths))
}

// ---- Laws ----

/// Usage adds up count by count, and fits while every count does.
pub proof fn usage_adds_up_by_count(u: UsageView, more: CodexUsage)
    ensures
        usage_plus(u, more).input == u.input + more.input_tokens,
        usage_plus(u, more).cached == u.cached + more.cached_input_tokens,
        usage_plus(u, more).output == u.output + more.output_tokens,
        usage_fits(u) <==> u.input <= 0xffff_ffff_ffff_ffff && u.cached <= 0xffff_ffff_ffff_ffff
            && u.output <= 0xffff_ffff_ffff_ffff,
{
}

/// What a turn used is read by name: input and output must be there, what was cached may be missing.
pub proof fn usage_is_read_by_name(t: Seq<char>, j: JsonView)
    requires
        record(shape_of(t), seq!["input_tokens"@, "cached_input_tokens"@, "output_tokens"@]) == Some(
            j,
        ),
    ensures
        match usage_of(t) {
            Some(u) => {
                &&& says_number(j, "input_tokens"@, u.input_tokens)
                &&& says_number(j, "output_tokens"@, u.output_tokens)
                &&& says_number(j, "cached_input_tokens"@, u.cached_input_tokens) || (member(
                    j,
                    "cached_input_tokens"@,
                ) is None && u.cached_input_tokens == 0)
            },
            None => (forall|n: u64| !#[trigger] says_number(j, "input_tokens"@, n)) || (forall|n: u64|
                !#[trigger] says_number(j, "output_tokens"@, n)) || (member(
                j,
                "cached_input_tokens"@,
            ) is Some && forall|n: u64| !#[trigger] says_number(j, "cached_input_tokens"@, n)),
        },
{
    numbers_are_found_by_their_key(j, "input_tokens"@);
    numbers_are_found_by_their_key(j, "output_tokens"@);
    numbers_are_found_by_their_key(j, "cached_input_tokens"@);
    assert(usage_keys() =~= seq!["input_tokens"@, "cached_input_tokens"@, "output_tokens"@]);
}

proof fn lemma_event_names()
    ensures
        "thread.started"@ != "turn.started"@,
        "thread.started"@ != "item.started"@,
        "thread.started"@ != "item.completed"@,
        "thread.started"@ != "turn.completed"@,
        "thread.started"@ != "turn.failed"@,
        "thread.started"@ != "error"@,
        "thread.started"@ != "exec.approval.request"@,
        "turn.started"@ != "item.started"@,
        "turn.started"@ != "item.completed"@,
        "turn.started"@ != "turn.completed"@,
        "turn.started"@ != "turn.failed"@,
        "turn.started"@ != "error"@,
        "turn.started"@ != "exec.approval.request"@,
        "item.started"@ != "item.completed"@,
        "item.started"@ != "turn.completed"@,
        "item.started"@ != "turn.failed"@,
        "item.started"@ != "error"@,
        "item.started"@ != "exec.approval.request"@,
        "item.completed"@ != "turn.completed"@,
        "item.completed"@ != "turn.failed"@,
        "item.completed"@ != "error"@,
        "item.completed"@ != "exec.approval.request"@,
        "turn.completed"@ != "turn.failed"@,
        "turn.completed"@ != "error"@,
        "turn.completed"@ != "exec.approval.request"@,
        "turn.failed"@ != "error"@,
        "turn.failed"@ != "exec.approval.request"@,
        "error"@ != "exec.approval.request"@,
{
    reveal_strlit("thread.started");
    reveal_strlit("turn.started");
    reveal_strlit("item.started");
    reveal_strlit("item.completed");
    reveal_strlit("turn.completed");
    reveal_strlit("turn.failed");
    reveal_strlit("error");
    reveal_strlit("exec.approval.request");
    assert("thread.started"@.len() == 14);
    assert("turn.started"@.len() == 12 && "turn.started"@[0] == 't');
    assert("item.started"@.len() == 12 && "item.started"@[0] == 'i');
    assert("item.completed"@.len() == 14 && "item.completed"@[0] == 'i');
    assert("thread.started"@[0] == 't' && "thread.started"@[1] == 'h');
    assert("turn.completed"@.len() == 14 && "turn.completed"@[0] == 't' && "turn.completed"@[1] == 'u');
    assert("turn.failed"@.len() == 11);
    assert("error"@.len() == 5);
    assert("exec.approval.request"@.len() == 21);
}

/// A line of the process is an event by its type: a thread with its id, a turn that starts, an item
/// that starts or ends, what a turn used, what it failed with, an error and a request for approval.
pub proof fn events_go_by_their_type(j: JsonView, s: Seq<char>)
    ensures
        says_text(j, "type"@, "thread.started"@) && says_text(j, "thread_id"@, s) ==> event_of(j)
            == Some(EventView::ThreadStarted(s)),
        says_text(j, "type"@, "turn.started"@) ==> event_of(j) == Some(EventView::TurnStarted),
        says_text(j, "type"@, "error"@) && says_text(j, "message"@, s) ==> event_of(j) == Some(
            EventView::Error(s),
        ),
        says_text(j, "type"@, "turn.completed"@) && stands_under(j, "usage"@, s) ==> event_of(j)
            == match usage_of(s) {
            Some(u) => Some(EventView::TurnCompleted(u)),
            None => None,
        },
        stands_under(j, "item"@, s) && settled(s) is Some ==> {
            &&& says_text(j, "type"@, "item.started"@) ==> event_of(j) == Some(
                EventView::ItemStarted(settled(s)->0),
            )
            &&& says_text(j, "type"@, "item.completed"@) ==> event_of(j) == Some(
                EventView::ItemCompleted(settled(s)->0),
            )
            &&& says_text(j, "type"@, "exec.approval.request"@) ==> event_of(j) == Some(
                EventView::ExecApprovalRequest(settled(s)->0),
            )
        },
        says_text(j, "type"@, "turn.failed"@) && stands_under(j, "error"@, s) && settled(s) is Some
            ==> event_of(j) == Some(EventView::TurnFailed(settled(s)->0)),
{
    lemma_event_names();
    strings_are_found_by_their_key(j, "type"@);
    strings_are_found_by_their_key(j, "thread_id"@);
    strings_are_found_by_their_key(j, "message"@);
    members_are_found_by_their_key(j, "usage"@);
    members_are_found_by_their_key(j, "item"@);
    members_are_found_by_their_key(j, "error"@);
}

/// A line that is no event: without a type, of another type, or without what its type needs.
pub proof fn other_lines_are_no_events(j: JsonView)
    ensures
        (forall|s: Seq<char>| !#[trigger] says_text(j, "type"@, s)) ==> event_of(j) is None,
        says_text(j, "type"@, "thread.started"@) && (forall|s: Seq<char>|
            !#[trigger] says_text(j, "thread_id"@, s)) ==> event_of(j) is None,
        says_text(j, "type"@, "error"@) && (forall|s: Seq<char>|
            !#[trigger] says_text(j, "message"@, s)) ==> event_of(j) is None,
        (says_text(j, "type"@, "item.started"@) || says_text(j, "type"@, "item.completed"@)
            || says_text(j, "type"@, "exec.approval.request"@)) && member(j, "item"@) is None
            ==> event_of(j) is None,
        says_text(j, "type"@, "turn.completed"@) && member(j, "usage"@) is None ==> event_of(j) is None,
        says_text(j, "type"@, "turn.failed"@) && member(j, "error"@) is None ==> event_of(j) is None,
        forall|t: Seq<char>| #[trigger]
            says_text(j, "type"@, t) && t != "thread.started"@ && t != "turn.started"@ && t
                != "item.started"@ && t != "item.completed"@ && t != "turn.completed"@ && t
                != "turn.failed"@ && t != "error"@ && t != "exec.approval.request"@ ==> event_of(j)
                is None,
{
    lemma_event_names();
    strings_are_found_by_their_key(j, "type"@);
    strings_are_found_by_their_key(j, "thread_id"@);
    strings_are_found_by_their_key(j, "message"@);
    if text_member(j, "type"@) is Some {
        assert(says_text(j, "type"@, text_member(j, "type"@)->0));
    }
    if text_member(j, "thread_id"@) is Some {
        assert(says_text(j, "thread_id"@, text_member(j, "thread_id"@)->0));
    }
    if text_member(j, "message"@) is Some {
        assert(says_text(j, "message"@, text_member(j, "message"@)->0));
    }
}

/// A line is read as an object with its members, or as a list of its type and what belongs to it; an
/// object that repeats one of its members is no event.
pub proof fn lines_are_objects_or_lists(line: Seq<char>, j: JsonView, a: Seq<Seq<char>>)
    ensures
        json_of(line) is Ok ==> event_on(line) == event_in(shape_of(line)),
        json_of(line) is Err ==> event_on(line) is None,
        j is Object && text_member(j, "type"@) is Some && record(
            j,
            event_keys(text_member(j, "type"@)->0),
        ) is Some ==> event_in(j) == event_of(j),
        j is Object && text_member(j, "type"@) is Some && record(
            j,
            event_keys(text_member(j, "type"@)->0),
        ) is None ==> event_in(j) is None,
        a.len() == 0 ==> event_in(JsonView::Array(a)) is None,
        a.len() == 2 && text_value(a[0]) == Some("thread.started"@) && text_value(a[1]) is Some
            ==> event_in(JsonView::Array(a)) == Some(EventView::ThreadStarted(text_value(a[1])->0)),
        a.len() == 2 && text_value(a[0]) == Some("error"@) && text_value(a[1]) is Some ==> event_in(
            JsonView::Array(a),
        ) == Some(EventView::Error(text_value(a[1])->0)),
        a.len() == 1 && text_value(a[0]) == Some("turn.started"@) ==> event_in(JsonView::Array(a))
            == Some(EventView::TurnStarted),
{
    lemma_event_names();
    reveal_strlit("type");
    reveal_strlit("thread_id");
    reveal_strlit("message");
    assert("type"@.len() != "thread_id"@.len() && "type"@.len() != "message"@.len());
    if j is Object {
        assert(record(j, event_keys(text_member(j, "type"@)->0)) is Some ==> record(
            j,
            event_keys(text_member(j, "type"@)->0),
        )->0 == j);
    }
    if a.len() == 2 {
        reveal_with_fuel(crate::json::member_in, 3);
        let k1 = seq!["type"@, "thread_id"@];
        let o1 = Seq::new(k1.len(), |i: int| (k1[i], a[i]));
        assert(o1[0] == ("type"@, a[0]) && o1[1] == ("thread_id"@, a[1]));
        assert(o1.drop_first()[0] == o1[1]);
        let k2 = seq!["type"@, "message"@];
        let o2 = Seq::new(k2.len(), |i: int| (k2[i], a[i]));
        assert(o2[0] == ("type"@, a[0]) && o2[1] == ("message"@, a[1]));
        assert(o2.drop_first()[0] == o2[1]);
    }
    if a.len() == 1 {
        let k1 = seq!["type"@];
        let o1 = Seq::new(k1.len(), |i: int| (k1[i], a[i]));
        assert(o1[0] == ("type"@, a[0]));
    }
}

/// Each type of event has its type and one thing besides, or nothing.
pub proof fn events_have_their_members(t: Seq<char>)
    ensures
        t == "thread.started"@ ==> event_keys(t) == seq!["type"@, "thread_id"@],
        t == "item.started"@ || t == "item.completed"@ || t == "exec.approval.request"@
            ==> event_keys(t) == seq!["type"@, "item"@],
        t == "turn.completed"@ ==> event_keys(t) == seq!["type"@, "usage"@],
        t == "turn.failed"@ ==> event_keys(t) == seq!["type"@, "error"@],
        t == "error"@ ==> event_keys(t) == seq!["type"@, "message"@],
        t == "turn.started"@ ==> event_keys(t) == seq!["type"@],
{
    lemma_event_names();
}

/// A run is told to answer in JSON, by its model, without asking for a repository, and gets the
/// prompt last; a session is resumed by its id, in front of all that.
pub proof fn runs_get_their_arguments(model: Seq<char>, prompt: Seq<char>, id: Seq<char>)
    ensures
        ({
            let fresh = exec_args(model, prompt, None);
            let again = exec_args(model, prompt, Some(id));
            &&& fresh.len() == 8 && again.len() == 10
            &&& fresh[0] == "exec"@ && again[0] == "exec"@
            &&& again[1] == "resume"@ && again[2] == id
            &&& fresh[1] == "--json"@ && fresh[2] == "--model"@ && fresh[3] == model
            &&& fresh[4] == "--skip-git-repo-check"@ && fresh[5] == "--color"@ && fresh[6] == "never"@
            &&& fresh[7] == prompt
            &&& forall|i: int| 1 <= i < 8 ==> #[trigger] again[i + 2] == fresh[i]
        }),
{
    let fresh = exec_args(model, prompt, None);
    let again = exec_args(model, prompt, Some(id));
    assert forall|i: int| 1 <= i < 8 implies #[trigger] again[i + 2] == fresh[i] by {}
}

/// A run gets its key, and its address where there is one, from its surroundings.
pub proof fn runs_get_their_key(token: Seq<char>, url: Seq<char>)
    ensures
        exec_env(token, None) == seq![("CODEX_API_KEY"@, token)],
        exec_env(token, Some(url)) == seq![("CODEX_API_KEY"@, token), ("OPENAI_BASE_URL"@, url)],
{
}

/// There is a program for two systems on two machines each, and for no other.
pub proof fn programs_are_for_their_machine(os: Seq<char>, arch: Seq<char>)
    ensures
        release_target(os, arch) is Some <==> (os == "linux"@ || os == "macos"@) && (arch == "x86_64"@
            || arch == "aarch64"@),
        release_target("linux"@, "x86_64"@) == Some("codex-x86_64-unknown-linux-musl"@),
        release_target("linux"@, "aarch64"@) == Some("codex-aarch64-unknown-linux-musl"@),
        release_target("macos"@, "x86_64"@) == Some("codex-x86_64-apple-darwin"@),
        release_target("macos"@, "aarch64"@) == Some("codex-aarch64-apple-darwin"@),
        release_url(os) == "https://github.com/openai/codex/releases/latest/download/"@ + os
            + ".tar.gz"@,
{
    reveal_strlit("linux");
    reveal_strlit("macos");
    reveal_strlit("x86_64");
    reveal_strlit("aarch64");
    assert("linux"@[0] != "macos"@[0]);
    assert("x86_64"@.len() != "aarch64"@.len());
}

proof fn lemma_part_start(path: Seq<u8>, start: int, end: int)
    requires
        0 <= start <= end <= path.len(),
        start == 0 || path[start - 1] == 47,
        forall|i: int| start <= i < end ==> #[trigger] path[i] != 47,
    ensures
        part_start(path, end) == start,
    decreases end - start,
{
    if end > start {
        assert(path[end - 1] != 47);
        lemma_part_start(path, start, end - 1);
    }
}

/// The name of a file is what stands behind the last slash, unless that is nothing or a dot, which
/// are passed over, or two dots, which name no file.
pub proof fn files_are_named_behind_the_last_slash(before: Seq<u8>, name: Seq<u8>)
    requires
        !name.contains(47u8),
        before.len() == 0 || before.last() == 47,
    ensures
        name.len() > 0 && name != seq![46u8] && name != seq![46u8, 46u8] ==> file_name(before + name)
            == Some(name),
        name == seq![46u8, 46u8] ==> file_name(before + name) is None,
        (name.len() == 0 || name == seq![46u8]) && before.len() > 0 ==> file_name(before + name)
            == file_name_to(before + name, before.len() - 1),
        (name.len() == 0 || name == seq![46u8]) && before.len() == 0 ==> file_name(before + name)
            is None,
{
    let path = before + name;
    let start = before.len() as int;
    let end = path.len() as int;
    assert forall|i: int| start <= i < end implies #[trigger] path[i] != 47 by {
        assert(path[i] == name[i - start]);
        assert(name.contains(name[i - start]));
    }
    lemma_part_start(path, start, end);
    assert(path.subrange(start, end) =~= name);
    if name == seq![46u8, 46u8] {
        assert(name.len() == 2 && seq![46u8].len() == 1);
    }
}

/// The program is the file whose name begins with `codex`.
pub proof fn programs_go_by_their_name(path: Seq<u8>, rest: Seq<u8>)
    ensures
        program_name(seq![99u8, 111u8, 100u8, 101u8, 120u8] + rest),
        program_name(rest) ==> rest.len() >= 5 && rest[0] == 'c' as int && rest[1] == 'o' as int
            && rest[2] == 'd' as int && rest[3] == 'e' as int && rest[4] == 'x' as int,
        program_path(path) <==> file_name(path) is Some && program_name(file_name(path)->0),
{
    let c = seq![99u8, 111u8, 100u8, 101u8, 120u8];
    assert((c + rest).subrange(0, 5) =~= c);
    if program_name(rest) {
        let s = rest.subrange(0, 5);
        assert(s[0] == 99 && s[1] == 111 && s[2] == 100 && s[3] == 101 && s[4] == 120);
    }
}

/// The program of an archive is its first entry that is one; an entry that cannot be read before it
/// fails the search, and without one there is none.
pub proof fn the_first_program_counts(paths: Seq<Option<Seq<u8>>>, from: int)
    requires
        0 <= from <= paths.len(),
    ensures
        match program_from(paths, from) {
            Ok(i) => from <= i < paths.len() && paths[i] is Some && program_path(paths[i]->0)
                && forall|k: int|
                from <= k < i ==> (#[trigger] paths[k]) is Some && !program_path(paths[k]->0),
            Err(DownloadStep::Find) => forall|k: int|
                from <= k < paths.len() ==> (#[trigger] paths[k]) is Some && !program_path(paths[k]->0),
            Err(DownloadStep::ReadEntry) => exists|i: int|
                from <= i < paths.len() && (#[trigger] paths[i]) is None && forall|k: int|
                    from <= k < i ==> (#[trigger] paths[k]) is Some && !program_path(paths[k]->0),
            Err(_) => false,
        },
    decreases paths.len() - from,
{
    if from < paths.len() {
        match paths[from] {
            Some(path) => {
                if !program_path(path) {
                    the_first_program_counts(paths, from + 1);
                    match program_from(paths, from + 1) {
                        Err(DownloadStep::ReadEntry) => {
                            let i = choose|i: int|
                                from + 1 <= i < paths.len() && (#[trigger] paths[i]) is None
                                    && forall|k: int|
                                    from + 1 <= k < i ==> (#[trigger] paths[k]) is Some
                                        && !program_path(paths[k]->0);
                            assert(paths[i] is None);
                        },
                        _ => {},
                    }
                }
            },
            None => {
                assert(paths[from] is None);
            },
        }
    }
}

/// A run starts its program in its directory, by its model, prompt and key.
pub proof fn runs_are_started_as_configured(
    c: CodexSpawnConfig,
    prompt: &str,
    session: Option<String>,
    r: SpawnPlan,
)
    requires
        call_ensures(spawn_codex_exec, (&c, prompt, &session), r),
    ensures
        r.program@ == c.binary_path@,
        r.current_dir@ == c.project_dir@,
        r.args@.len() == if session is Some { 10int } else { 8int },
        r.args@[0]@ == "exec"@,
        session is Some ==> r.args@[1]@ == "resume"@ && r.args@[2]@ == session->0@,
        r.args@.last()@ == prompt@,
        r.args@[r.args@.len() - 5]@ == c.model@ && r.args@[r.args@.len() - 6]@ == "--model"@,
        r.env@.len() == if c.base_url is Some { 2int } else { 1int },
{
    let args = exec_args(c.model@, prompt@, opt_view(session));
    assert(views(r.args@).len() == r.args@.len());
    assert(args.len() == if session is Some { 10int } else { 8int });
    assert forall|i: int| 0 <= i < r.args@.len() implies #[trigger] r.args@[i]@ == args[i] by {
        assert(views(r.args@)[i] == r.args@[i]@);
    }
    assert(crate::json::member_views(r.env@).len() == r.env@.len());
    assert(r.args@.last() == r.args@[r.args@.len() - 1]);
}

/// What failed in fetching the program is told by its step.
pub proof fn failed_downloads_are_told(
    os: &str,
    arch: &str,
    status: &str,
    a: String,
    b: String,
    c: String,
)
    requires
        call_ensures(download_error, (DownloadStep::Platform, os, arch, status), a),
        call_ensures(download_error, (DownloadStep::Status, os, arch, status), b),
        call_ensures(download_error, (DownloadStep::Find, os, arch, status), c),
    ensures
        a@ == "unsupported platform (os="@ + os@ + ", arch="@ + arch@
            + ") for codex binary download"@,
        b@ == "failed to download codex binary: HTTP "@ + status@,
        c@ == "codex binary not found in downloaded archive"@,
{
}

} // verus!
