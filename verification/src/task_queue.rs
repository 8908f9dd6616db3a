//! A durable work queue: what becomes of a task, what its observers are told, and the control
//! events of workers outside the host.
use vstd::prelude::*;
use vstd::utf8::{decode_utf8, encode_utf8, encode_utf8_decode_utf8, valid_utf8};
use crate::codec::{base64_bytes, base64_text, decode_base64, encode_base64};
use crate::json::{get_text, get_unsigned, numbers_are_found_by_their_key, parse_json, says_number, says_text, strings_are_found_by_their_key, text_member, unsigned_member, value_of, Json, JsonView};
use crate::number::{decimal, u64_text, wrap_u32};
use crate::table::{data_of, lemma_put, lookup, outside_workload, put_at, setting, config_get, merge_config, Config, Owned, Table, Tracker};
use crate::text::{cat2, cat3, copy_opt, from_utf8, opt_view, same};
use crate::world::{bound_config, first_of_package, three, two, WitInterface, WitWorld};

verus! {

pub const PLUGIN_ID: &'static str = "task-queue";

/// How a task ended.
#[derive(Clone, Copy, Debug, PartialEq, Eq, Structural)]
pub enum TaskStatus {
    Succeeded,
    Failed,
    DispatchTimeout,
    ExecutionTimeout,
    Cancelled,
    MaxRetriesExceeded,
}

/// The state of a task in the queue.
#[derive(Clone, Copy, Debug, PartialEq, Eq, Structural)]
pub enum TaskState {
    Queued,
    Running,
    DispatchTimeoutPending,
    Succeeded,
    Failed,
    DispatchTimeout,
    ExecutionTimeout,
    Cancelled,
    MaxRetriesExceeded,
}

#[derive(Clone, Copy, Debug, PartialEq, Eq, Structural)]
pub enum AttemptErrorSource {
    Guest,
    System,
}

#[derive(Debug)]
pub struct AttemptFailure {
    pub id: String,
    pub attempt: u32,
    pub source: AttemptErrorSource,
    pub error: String,
    pub started_at_ms: Option<u64>,
    pub failed_at_ms: Option<u64>,
    pub duration_ms: Option<u64>,
}

#[derive(Debug)]
pub struct TaskResult {
    pub id: String,
    pub status: TaskStatus,
    pub attempt: u32,
    pub output: Option<Vec<u8>>,
    pub error: Option<String>,
}

/// How a task ended, as observers see it.
#[derive(Clone, Copy, Debug, PartialEq, Eq, Structural)]
pub enum ObserverTaskStatus {
    Succeeded,
    Failed,
    DispatchTimeout,
    ExecutionTimeout,
    Cancelled,
    MaxRetriesExceeded,
}

#[derive(Clone, Copy, Debug, PartialEq, Eq, Structural)]
pub enum ObserverErrorSource {
    Guest,
    System,
}

#[derive(Debug)]
pub struct ObserverAttemptFailure {
    pub id: String,
    pub attempt: u32,
    pub source: ObserverErrorSource,
    pub error: String,
    pub started_at_ms: Option<u64>,
    pub failed_at_ms: Option<u64>,
    pub duration_ms: Option<u64>,
}

#[derive(Debug)]
pub struct ObserverTaskResult {
    pub id: String,
    pub status: ObserverTaskStatus,
    pub attempt: u32,
    pub output: Option<Vec<u8>>,
    pub error: Option<String>,
}

#[derive(Debug)]
pub struct TaskInfo {
    pub id: String,
    pub status: TaskStatus,
    pub attempt: Option<u32>,
    pub created_at_ms: u64,
    pub dispatched_at_ms: Option<u64>,
    pub completed_at_ms: Option<u64>,
    pub cancel_requested: bool,
}

#[derive(Debug)]
pub struct AttemptFailureRecord {
    pub attempt: u32,
    pub source: String,
    pub error: String,
    pub started_at_ms: Option<u64>,
    pub failed_at_ms: Option<u64>,
    pub duration_ms: Option<u64>,
}

/// What the queue keeps of a task.
#[derive(Debug)]
pub struct TaskMeta {
    pub id: String,
    pub state: TaskState,
    pub attempt: u32,
    pub attempts: Vec<AttemptFailureRecord>,
    pub created_at_ms: u64,
    pub dispatched_at_ms: Option<u64>,
    pub completed_at_ms: Option<u64>,
    pub deadline_ms: u64,
    pub cancel_requested: bool,
}

/// A result as it is archived.
#[derive(Debug)]
pub struct TaskResultEvent {
    pub schema_version: u32,
    pub id: String,
    pub status: TaskStatus,
    pub attempt: u32,
    pub output_base64: Option<String>,
    pub output: Option<Vec<u8>>,
    pub error: Option<String>,
    pub completed_at_ms: Option<u64>,
}

/// What an observer is told.
#[derive(Debug)]
pub enum CallbackEvent {
    Heartbeat { id: String, info: String },
    AttemptFailed { event: AttemptFailure },
    Complete { result: TaskResult },
}

// ---- Statuses ----

/// The status of a state; a task that still waits or runs has none.
pub open spec fn status_of(state: TaskState) -> Option<TaskStatus> {
    match state {
        TaskState::Queued => None,
        TaskState::Running => None,
        TaskState::DispatchTimeoutPending => Some(TaskStatus::DispatchTimeout),
        TaskState::Succeeded => Some(TaskStatus::Succeeded),
        TaskState::Failed => Some(TaskStatus::Failed),
        TaskState::DispatchTimeout => Some(TaskStatus::DispatchTimeout),
        TaskState::ExecutionTimeout => Some(TaskStatus::ExecutionTimeout),
        TaskState::Cancelled => Some(TaskStatus::Cancelled),
        TaskState::MaxRetriesExceeded => Some(TaskStatus::MaxRetriesExceeded),
    }
}

/// The status of a task that no longer waits or runs.
pub fn status_variant(state: &TaskState) -> (r: TaskStatus)
    requires
        status_of(*state) is Some,
    ensures
        status_of(*state) == Some(r),
{
    match state {
        TaskState::DispatchTimeoutPending => TaskStatus::DispatchTimeout,
        TaskState::Succeeded => TaskStatus::Succeeded,
        TaskState::DispatchTimeout => TaskStatus::DispatchTimeout,
        TaskState::ExecutionTimeout => TaskStatus::ExecutionTimeout,
        TaskState::Cancelled => TaskStatus::Cancelled,
        TaskState::MaxRetriesExceeded => TaskStatus::MaxRetriesExceeded,
        _ => TaskStatus::Failed,
    }
}

/// The name of a status in events.
pub open spec fn status_name(s: TaskStatus) -> Seq<char> {
    match s {
        TaskStatus::Succeeded => "succeeded"@,
        TaskStatus::Failed => "failed"@,
        TaskStatus::DispatchTimeout => "dispatch-timeout"@,
        TaskStatus::ExecutionTimeout => "execution-timeout"@,
        TaskStatus::Cancelled => "cancelled"@,
        TaskStatus::MaxRetriesExceeded => "max-retries-exceeded"@,
    }
}

/// The status that a text names; any other text stands for a failure.
pub open spec fn status_named(t: Seq<char>) -> TaskStatus {
    if t == "succeeded"@ {
        TaskStatus::Succeeded
    } else if t == "execution-timeout"@ {
        TaskStatus::ExecutionTimeout
    } else if t == "dispatch-timeout"@ {
        TaskStatus::DispatchTimeout
    } else if t == "cancelled"@ {
        TaskStatus::Cancelled
    } else if t == "max-retries-exceeded"@ {
        TaskStatus::MaxRetriesExceeded
    } else {
        TaskStatus::Failed
    }
}

impl TaskStatus {
    /// The name of the status in events.
    pub fn as_str(&self) -> (r: &'static str)
        ensures
            r@ == status_name(*self),
    {
        match self {
            TaskStatus::Succeeded => "succeeded",
            TaskStatus::Failed => "failed",
            TaskStatus::DispatchTimeout => "dispatch-timeout",
            TaskStatus::ExecutionTimeout => "execution-timeout",
            TaskStatus::Cancelled => "cancelled",
            TaskStatus::MaxRetriesExceeded => "max-retries-exceeded",
        }
    }
}

fn read_status(t: &str) -> (r: TaskStatus)
    ensures
        r == status_named(t@),
{
    if same(t, "succeeded") {
        TaskStatus::Succeeded
    } else if same(t, "execution-timeout") {
        TaskStatus::ExecutionTimeout
    } else if same(t, "dispatch-timeout") {
        TaskStatus::DispatchTimeout
    } else if same(t, "cancelled") {
        TaskStatus::Cancelled
    } else if same(t, "max-retries-exceeded") {
        TaskStatus::MaxRetriesExceeded
    } else {
        TaskStatus::Failed
    }
}

// ---- Conversions ----

/// The status by the same name.
pub open spec fn observer_status(s: TaskStatus) -> ObserverTaskStatus {
    match s {
        TaskStatus::Succeeded => ObserverTaskStatus::Succeeded,
        TaskStatus::Failed => ObserverTaskStatus::Failed,
        TaskStatus::DispatchTimeout => ObserverTaskStatus::DispatchTimeout,
        TaskStatus::ExecutionTimeout => ObserverTaskStatus::ExecutionTimeout,
        TaskStatus::Cancelled => ObserverTaskStatus::Cancelled,
        TaskStatus::MaxRetriesExceeded => ObserverTaskStatus::MaxRetriesExceeded,
    }
}

pub open spec fn observer_source(s: AttemptErrorSource) -> ObserverErrorSource {
    match s {
        AttemptErrorSource::Guest => ObserverErrorSource::Guest,
        AttemptErrorSource::System => ObserverErrorSource::System,
    }
}

/// A failed attempt as observers see it.
pub fn to_observer_attempt_failure(event: AttemptFailure) -> (r: ObserverAttemptFailure)
    ensures
        r.id == event.id,
        r.attempt == event.attempt,
        r.source == observer_source(event.source),
        r.source is Guest <==> event.source is Guest,
        r.source is System <==> event.source is System,
        r.error == event.error,
        r.started_at_ms == event.started_at_ms,
        r.failed_at_ms == event.failed_at_ms,
        r.duration_ms == event.duration_ms,
{
    ObserverAttemptFailure {
        id: event.id,
        attempt: event.attempt,
        source: match event.source {
            AttemptErrorSource::Guest => ObserverErrorSource::Guest,
            AttemptErrorSource::System => ObserverErrorSource::System,
        },
        error: event.error,
        started_at_ms: event.started_at_ms,
        failed_at_ms: event.failed_at_ms,
        duration_ms: event.duration_ms,
    }
}

/// A result as observers see it.
pub fn to_observer_task_result(result: TaskResult) -> (r: ObserverTaskResult)
    ensures
        r.id == result.id,
        r.status == observer_status(result.status),
        r.status is Succeeded <==> result.status is Succeeded,
        r.status is Failed <==> result.status is Failed,
        r.status is DispatchTimeout <==> result.status is DispatchTimeout,
        r.status is ExecutionTimeout <==> result.status is ExecutionTimeout,
        r.status is Cancelled <==> result.status is Cancelled,
        r.status is MaxRetriesExceeded <==> result.status is MaxRetriesExceeded,
        r.attempt == result.attempt,
        r.output == result.output,
        r.error == result.error,
{
    ObserverTaskResult {
        id: result.id,
        status: match result.status {
            TaskStatus::Succeeded => ObserverTaskStatus::Succeeded,
            TaskStatus::Failed => ObserverTaskStatus::Failed,
            TaskStatus::DispatchTimeout => ObserverTaskStatus::DispatchTimeout,
            TaskStatus::ExecutionTimeout => ObserverTaskStatus::ExecutionTimeout,
            TaskStatus::Cancelled => ObserverTaskStatus::Cancelled,
            TaskStatus::MaxRetriesExceeded => ObserverTaskStatus::MaxRetriesExceeded,
        },
        attempt: result.attempt,
        output: result.output,
        error: result.error,
    }
}

/// `i` is what a producer is told of a task; attempts count from one, their indices from zero.
pub open spec fn tells(i: TaskInfo, m: TaskMeta, status: TaskStatus) -> bool {
    &&& i.id == m.id
    &&& i.status == status
    &&& i.attempt == if m.attempt == 0 {
        None::<u32>
    } else {
        Some((m.attempt - 1) as u32)
    }
    &&& i.created_at_ms == m.created_at_ms
    &&& i.dispatched_at_ms == m.dispatched_at_ms
    &&& i.completed_at_ms == m.completed_at_ms
    &&& i.cancel_requested == m.cancel_requested
}

/// What a producer is told of a task.
pub fn guest_task_info(meta: &TaskMeta, status: TaskStatus) -> (r: TaskInfo)
    ensures
        tells(r, *meta, status),
{
    TaskInfo {
        id: meta.id.clone(),
        status,
        attempt: if meta.attempt == 0 {
            None
        } else {
            Some(meta.attempt - 1)
        },
        created_at_ms: meta.created_at_ms,
        dispatched_at_ms: meta.dispatched_at_ms,
        completed_at_ms: meta.completed_at_ms,
        cancel_requested: meta.cancel_requested,
    }
}

// ---- Control events ----

/// A text under a key, or another text where there is none.
pub open spec fn text_or(j: JsonView, key: Seq<char>, other: Seq<char>) -> Seq<char> {
    match text_member(j, key) {
        Some(t) => t,
        None => other,
    }
}

/// The attempt that an event is about: one where it says nothing, cut to 32 bits.
pub open spec fn attempt_in(j: JsonView) -> int {
    match unsigned_member(j, "attempt"@) {
        Some(n) => n as int % 0x1_0000_0000,
        None => 1,
    }
}

/// The output of an event: base64 text that can be decoded.
pub open spec fn output_in(j: JsonView) -> Option<Seq<u8>> {
    match text_member(j, "output"@) {
        Some(t) => base64_bytes(t),
        None => None,
    }
}

pub open spec fn bytes_view(o: Option<Vec<u8>>) -> Option<Seq<u8>> {
    match o {
        Some(v) => Some(v@),
        None => None,
    }
}

/// `e` is what a control event says; none for a value that is no control event.
pub open spec fn control_event(j: JsonView, e: Option<CallbackEvent>) -> bool {
    match (text_member(j, "id"@), text_member(j, "type"@)) {
        (Some(id), Some(t)) => if t == "complete"@ {
            match e {
                Some(CallbackEvent::Complete { result }) => {
                    &&& result.id@ == id
                    &&& result.status == status_named(text_or(j, "status"@, "failed"@))
                    &&& result.attempt == attempt_in(j)
                    &&& bytes_view(result.output) == output_in(j)
                    &&& opt_view(result.error) == text_member(j, "error"@)
                },
                _ => false,
            }
        } else if t == "attempt_failed"@ {
            match e {
                Some(CallbackEvent::AttemptFailed { event }) => {
                    &&& event.id@ == id
                    &&& event.attempt == attempt_in(j)
                    &&& event.source == if text_member(j, "source"@) == Some("system"@) {
                        AttemptErrorSource::System
                    } else {
                        AttemptErrorSource::Guest
                    }
                    &&& event.error@ == text_or(j, "error"@, Seq::<char>::empty())
                    &&& event.started_at_ms is None
                    &&& event.failed_at_ms is None
                    &&& event.duration_ms is None
                },
                _ => false,
            }
        } else if t == "heartbeat"@ {
            match e {
                Some(CallbackEvent::Heartbeat { id: i, info }) => i@ == id && info@ == text_or(
                    j,
                    "info"@,
                    Seq::<char>::empty(),
                ),
                _ => false,
            }
        } else {
            e is None
        },
        _ => e is None,
    }
}

fn read_attempt(j: &Json) -> (r: u32)
    ensures
        r == attempt_in(j@),
{
    match get_unsigned(j, "attempt") {
        Some(n) => wrap_u32(n),
        None => 1,
    }
}

fn get_text_or(j: &Json, key: &str, other: &str) -> (r: String)
    ensures
        r@ == text_or(j@, key@, other@),
{
    match get_text(j, key) {
        Some(t) => t,
        None => other.to_owned(),
    }
}

/// The control event that a JSON value describes.
pub fn read_control_event(j: &Json) -> (r: Option<CallbackEvent>)
    ensures
        control_event(j@, r),
{
    proof {
        reveal_strlit("");
    }
    assert(""@ =~= Seq::<char>::empty());
    let id = match get_text(j, "id") {
        None => {
            return None;
        },
        Some(t) => t,
    };
    let event_type = match get_text(j, "type") {
        None => {
            return None;
        },
        Some(t) => t,
    };
    if same(&event_type, "complete") {
        let status_text = get_text_or(j, "status", "failed");
        let output = match get_text(j, "output") {
            Some(t) => decode_base64(&t),
            None => None,
        };
        Some(
            CallbackEvent::Complete {
                result: TaskResult {
                    id,
                    status: read_status(&status_text),
                    attempt: read_attempt(j),
                    output,
                    error: get_text(j, "error"),
                },
            },
        )
    } else if same(&event_type, "attempt_failed") {
        let source = match get_text(j, "source") {
            Some(t) => if same(&t, "system") {
                AttemptErrorSource::System
            } else {
                AttemptErrorSource::Guest
            },
            None => AttemptErrorSource::Guest,
        };
        Some(
            CallbackEvent::AttemptFailed {
                event: AttemptFailure {
                    id,
                    attempt: read_attempt(j),
                    source,
                    error: get_text_or(j, "error", ""),
                    started_at_ms: None,
                    failed_at_ms: None,
                    duration_ms: None,
                },
            },
        )
    } else if same(&event_type, "heartbeat") {
        let info = get_text_or(j, "info", "");
        Some(CallbackEvent::Heartbeat { id, info })
    } else {
        None
    }
}

/// The control event that a worker outside the host published on `{queue}.events`, if the payload
/// is one.
pub fn parse_control_event(payload: &[u8]) -> (r: Option<CallbackEvent>)
    ensures
        if valid_utf8(payload@) {
            control_event(value_of(decode_utf8(payload@)), r)
        } else {
            r is None
        },
{
    match from_utf8(payload) {
        None => None,
        Some(text) => {
            let r = match parse_json(&text) {
                Ok(j) => read_control_event(&j),
                Err(_) => None,
            };
            proof {
                encode_utf8_decode_utf8(text@);
            }
            r
        },
    }
}

// ---- Executing a task ----

/// The text behind the last full stop.
pub open spec fn last_token(subject: Seq<char>) -> Seq<char>
    decreases subject.len(),
{
    if subject.len() == 0 {
        subject
    } else if subject.last() == '.' {
        Seq::<char>::empty()
    } else {
        last_token(subject.drop_last()).push(subject.last())
    }
}

/// The id of the task that a subject names: the text behind the last full stop.
pub fn task_id_of(subject: &str) -> (r: String)
    ensures
        r@ == last_token(subject@),
{
    let v = crate::text::chars_of(subject);
    let mut out = String::new();
    let mut i: usize = 0;
    assert(v@.take(0) =~= Seq::<char>::empty());
    assert(out@ =~= last_token(v@.take(0)));
    while i < v.len()
        invariant
            i <= v@.len(),
            out@ == last_token(v@.take(i as int)),
        decreases v@.len() - i,
    {
        assert(v@.take(i + 1).drop_last() == v@.take(i as int));
        assert(v@.take(i + 1).last() == v@[i as int]);
        if v[i] == '.' {
            out = String::new();
        } else {
            out.push(v[i]);
        }
        i = i + 1;
    }
    assert(v@.take(v@.len() as int) == v@);
    out
}

/// A count of at least one, cut to 32 bits.
pub open spec fn count_of(n: i64) -> int {
    (if n < 1 {
        1int
    } else {
        n as int
    }) % 0x1_0000_0000
}

/// The attempt that a delivery is: how often the message was delivered, at least once.
pub fn attempt_of(delivered: Option<i64>) -> (r: u32)
    ensures
        r == match delivered {
            Some(n) => count_of(n),
            None => 1,
        },
{
    match delivered {
        Some(n) => if n < 1 {
            1
        } else {
            wrap_u32(n as u64)
        },
        None => 1,
    }
}

/// Marks a task as running.
pub fn mark_running(meta: &mut TaskMeta, attempt: u32, now_ms: u64, execution_timeout_ms: u64)
    requires
        now_ms + execution_timeout_ms <= u64::MAX,
    ensures
        final(meta).state == TaskState::Running,
        final(meta).attempt == attempt,
        final(meta).dispatched_at_ms == Some(now_ms),
        final(meta).deadline_ms == now_ms + execution_timeout_ms,
        final(meta).id == old(meta).id,
        final(meta).attempts == old(meta).attempts,
        final(meta).created_at_ms == old(meta).created_at_ms,
        final(meta).completed_at_ms == old(meta).completed_at_ms,
        final(meta).cancel_requested == old(meta).cancel_requested,
{
    meta.state = TaskState::Running;
    meta.attempt = attempt;
    meta.dispatched_at_ms = Some(now_ms);
    meta.deadline_ms = now_ms + execution_timeout_ms;
}

/// What became of the call of a worker.
pub enum WorkerOutcome {
    /// No worker component is bound to the queue.
    NoWorker,
    Finished(Option<Vec<u8>>),
    Failed(String),
}

/// What is done about an attempt, in order.
pub enum TaskStep {
    RecordFailure { source: AttemptErrorSource, error: String },
    Complete { state: TaskState, output: Option<Vec<u8>>, reason: Option<String> },
    Ack,
    Term,
    /// Deliver again, after the backoff of this attempt.
    Nak { attempt: u32 },
}

pub enum StepView {
    RecordFailure { source: AttemptErrorSource, error: Seq<char> },
    Complete { state: TaskState, output: Option<Seq<u8>>, reason: Option<Seq<char>> },
    Ack,
    Term,
    Nak { attempt: u32 },
}

impl TaskStep {
    pub open spec fn view(&self) -> StepView {
        match self {
            TaskStep::RecordFailure { source, error } => StepView::RecordFailure {
                source: *source,
                error: error@,
            },
            TaskStep::Complete { state, output, reason } => StepView::Complete {
                state: *state,
                output: bytes_view(*output),
                reason: opt_view(*reason),
            },
            TaskStep::Ack => StepView::Ack,
            TaskStep::Term => StepView::Term,
            TaskStep::Nak { attempt } => StepView::Nak { attempt: *attempt },
        }
    }
}

pub open spec fn step_views(v: Seq<TaskStep>) -> Seq<StepView> {
    v.map_values(|s: TaskStep| s@)
}

/// Whether this attempt is the last one.
pub open spec fn last_attempt(attempt: u32, max_deliver: i64) -> bool {
    attempt >= count_of(max_deliver)
}

/// What is done about a failed attempt.
pub open spec fn failure_steps(error: Seq<char>, attempt: u32, max_deliver: i64) -> Seq<StepView> {
    seq![StepView::RecordFailure { source: AttemptErrorSource::Guest, error }] + (if last_attempt(
        attempt,
        max_deliver,
    ) {
        seq![
            StepView::Complete {
                state: TaskState::MaxRetriesExceeded,
                output: None,
                reason: Some("max retries exceeded"@),
            },
            StepView::Term,
        ]
    } else {
        seq![StepView::Nak { attempt }]
    })
}

/// What is done about an attempt.
pub open spec fn steps_after(o: WorkerOutcome, attempt: u32, max_deliver: i64) -> Seq<StepView> {
    match o {
        WorkerOutcome::Finished(output) => seq![
            StepView::Complete {
                state: TaskState::Succeeded,
                output: bytes_view(output),
                reason: None,
            },
            StepView::Ack,
        ],
        WorkerOutcome::Failed(e) => failure_steps(e@, attempt, max_deliver),
        WorkerOutcome::NoWorker => seq![
            StepView::RecordFailure {
                source: AttemptErrorSource::System,
                error: "no worker component bound to queue"@,
            },
        ] + failure_steps("no worker component bound to queue"@, attempt, max_deliver),
    }
}

fn push_failure(steps: &mut Vec<TaskStep>, error: String, attempt: u32, max_deliver: i64)
    ensures
        step_views(final(steps)@) == step_views(old(steps)@) + failure_steps(
            error@,
            attempt,
            max_deliver,
        ),
{
    let ghost before = steps@;
    let ghost e = error@;
    steps.push(TaskStep::RecordFailure { source: AttemptErrorSource::Guest, error });
    if attempt >= attempt_of(Some(max_deliver)) {
        steps.push(
            TaskStep::Complete {
                state: TaskState::MaxRetriesExceeded,
                output: None,
                reason: Some("max retries exceeded".to_owned()),
            },
        );
        steps.push(TaskStep::Term);
    } else {
        steps.push(TaskStep::Nak { attempt });
    }
    assert(step_views(steps@) =~= step_views(before) + failure_steps(e, attempt, max_deliver));
}

/// What is done about an attempt: a success completes the task; a failure is recorded, and the task
/// is delivered again until its attempts are used up. That no worker is bound is recorded as a
/// failure of the system, and then like any other.
pub fn execute_task(outcome: WorkerOutcome, attempt: u32, max_deliver: i64) -> (r: Vec<TaskStep>)
    ensures
        step_views(r@) == steps_after(outcome, attempt, max_deliver),
{
    let mut steps: Vec<TaskStep> = Vec::new();
    match outcome {
        WorkerOutcome::Finished(output) => {
            let ghost o = bytes_view(output);
            steps.push(TaskStep::Complete { state: TaskState::Succeeded, output, reason: None });
            steps.push(TaskStep::Ack);
            assert(step_views(steps@) =~= seq![
                StepView::Complete { state: TaskState::Succeeded, output: o, reason: None },
                StepView::Ack,
            ]);
        },
        WorkerOutcome::Failed(e) => {
            assert(step_views(steps@) =~= Seq::<StepView>::empty());
            push_failure(&mut steps, e, attempt, max_deliver);
            assert(step_views(steps@) =~= failure_steps(e@, attempt, max_deliver));
        },
        WorkerOutcome::NoWorker => {
            steps.push(
                TaskStep::RecordFailure {
                    source: AttemptErrorSource::System,
                    error: "no worker component bound to queue".to_owned(),
                },
            );
            assert(step_views(steps@) =~= seq![
                StepView::RecordFailure {
                    source: AttemptErrorSource::System,
                    error: "no worker component bound to queue"@,
                },
            ]);
            push_failure(
                &mut steps,
                "no worker component bound to queue".to_owned(),
                attempt,
                max_deliver,
            );
        },
    }
    steps
}

/// The span from a start to now; zero where the clock went back.
pub fn duration_since(now_ms: u64, started_ms: u64) -> (r: u64)
    ensures
        r == if now_ms >= started_ms {
            now_ms - started_ms
        } else {
            0
        },
{
    now_ms.saturating_sub(started_ms)
}

/// The name of a source in records.
pub open spec fn source_name(s: AttemptErrorSource) -> Seq<char> {
    match s {
        AttemptErrorSource::Guest => "guest"@,
        AttemptErrorSource::System => "system"@,
    }
}

/// A failed attempt: what is kept with the task, and what observers are told.
pub fn record_attempt_failure(
    meta: &mut TaskMeta,
    task_id: &str,
    attempt: u32,
    source: AttemptErrorSource,
    error: &str,
    started_at_ms: u64,
    failed_at_ms: u64,
    duration_ms: u64,
) -> (r: CallbackEvent)
    ensures
        final(meta).id == old(meta).id,
        final(meta).state == old(meta).state,
        final(meta).attempt == old(meta).attempt,
        final(meta).created_at_ms == old(meta).created_at_ms,
        final(meta).dispatched_at_ms == old(meta).dispatched_at_ms,
        final(meta).completed_at_ms == old(meta).completed_at_ms,
        final(meta).deadline_ms == old(meta).deadline_ms,
        final(meta).cancel_requested == old(meta).cancel_requested,
        final(meta).attempts@.len() == old(meta).attempts@.len() + 1,
        final(meta).attempts@.drop_last() == old(meta).attempts@,
        ({
            let f = final(meta).attempts@.last();
            &&& f.attempt == attempt
            &&& f.source@ == source_name(source)
            &&& f.error@ == error@
            &&& f.started_at_ms == Some(started_at_ms)
            &&& f.failed_at_ms == Some(failed_at_ms)
            &&& f.duration_ms == Some(duration_ms)
        }),
        match r {
            CallbackEvent::AttemptFailed { event } => {
                &&& event.id@ == task_id@
                &&& event.attempt == attempt
                &&& event.source == source
                &&& event.error@ == error@
                &&& event.started_at_ms == Some(started_at_ms)
                &&& event.failed_at_ms == Some(failed_at_ms)
                &&& event.duration_ms == Some(duration_ms)
            },
            _ => false,
        },
{
    let source_text = match source {
        AttemptErrorSource::Guest => "guest".to_owned(),
        AttemptErrorSource::System => "system".to_owned(),
    };
    let ghost before = meta.attempts@;
    meta.attempts.push(
        AttemptFailureRecord {
            attempt,
            source: source_text,
            error: error.to_owned(),
            started_at_ms: Some(started_at_ms),
            failed_at_ms: Some(failed_at_ms),
            duration_ms: Some(duration_ms),
        },
    );
    assert(meta.attempts@.drop_last() =~= before);
    CallbackEvent::AttemptFailed {
        event: AttemptFailure {
            id: task_id.to_owned(),
            attempt,
            source,
            error: error.to_owned(),
            started_at_ms: Some(started_at_ms),
            failed_at_ms: Some(failed_at_ms),
            duration_ms: Some(duration_ms),
        },
    }
}

pub open spec fn opt_base64(o: Option<Seq<u8>>) -> Option<Seq<char>> {
    match o {
        Some(b) => Some(base64_text(b)),
        None => None,
    }
}

/// A completed task: the task is marked, the result archived, and observers are told.
pub fn complete_task(
    meta: &mut TaskMeta,
    task_id: &str,
    attempt: u32,
    state: TaskState,
    output: Option<Vec<u8>>,
    error: Option<String>,
    now_ms: u64,
    schema_version: u32,
) -> (r: (TaskResultEvent, CallbackEvent))
    requires
        status_of(state) is Some,
    ensures
        final(meta).id == old(meta).id,
        final(meta).state == state,
        final(meta).attempt == old(meta).attempt,
        final(meta).attempts == old(meta).attempts,
        final(meta).created_at_ms == old(meta).created_at_ms,
        final(meta).dispatched_at_ms == old(meta).dispatched_at_ms,
        final(meta).completed_at_ms == Some(now_ms),
        final(meta).deadline_ms == old(meta).deadline_ms,
        final(meta).cancel_requested == old(meta).cancel_requested,
        r.0.schema_version == schema_version,
        r.0.id@ == task_id@,
        Some(r.0.status) == status_of(state),
        r.0.attempt == attempt,
        opt_view(r.0.output_base64) == opt_base64(bytes_view(output)),
        r.0.output is None,
        r.0.error == error,
        r.0.completed_at_ms == Some(now_ms),
        match r.1 {
            CallbackEvent::Complete { result } => {
                &&& result.id@ == task_id@
                &&& Some(result.status) == status_of(state)
                &&& result.attempt == attempt
                &&& result.output == output
                &&& result.error == error
            },
            _ => false,
        },
{
    meta.state = state;
    meta.completed_at_ms = Some(now_ms);
    let status = status_variant(&state);
    let output_base64 = match &output {
        Some(b) => Some(encode_base64(b.as_slice())),
        None => None,
    };
    let archived = TaskResultEvent {
        schema_version,
        id: task_id.to_owned(),
        status,
        attempt,
        output_base64,
        output: None,
        error: copy_opt(&error),
        completed_at_ms: Some(now_ms),
    };
    let event = CallbackEvent::Complete {
        result: TaskResult { id: task_id.to_owned(), status, attempt, output, error },
    };
    (archived, event)
}

/// The step at which the call of a guest failed.
pub enum CallStep {
    NewStore,
    InstantiatePre,
    Bind,
    Start,
    StoreCall,
    Call,
}

/// The error of a worker that could not be called.
pub fn worker_error(step: CallStep, message: &str) -> (r: String)
    ensures
        r@ == (match step {
            CallStep::NewStore => "failed to create worker store: "@,
            CallStep::InstantiatePre => "failed to instantiate worker: "@,
            CallStep::Bind => "failed to bind worker export: "@,
            CallStep::Start => "failed to start worker: "@,
            CallStep::StoreCall => "worker store call failed: "@,
            CallStep::Call => "worker call failed: "@,
        }) + message@,
{
    let prefix = match step {
        CallStep::NewStore => "failed to create worker store: ",
        CallStep::InstantiatePre => "failed to instantiate worker: ",
        CallStep::Bind => "failed to bind worker export: ",
        CallStep::Start => "failed to start worker: ",
        CallStep::StoreCall => "worker store call failed: ",
        CallStep::Call => "worker call failed: ",
    };
    cat2(prefix, message)
}

/// The error of an observer that could not be called.
pub fn observer_error(step: CallStep, message: &str) -> (r: String)
    ensures
        r@ == match step {
            CallStep::NewStore => "failed to create observer store"@,
            CallStep::InstantiatePre => "failed to instantiate observer"@,
            CallStep::Bind => "failed to bind observer: "@ + message@,
            CallStep::Start => "failed to start observer: "@ + message@,
            CallStep::StoreCall => "observer store call failed: "@ + message@,
            CallStep::Call => "observer handler failed: "@ + message@,
        },
{
    match step {
        CallStep::NewStore => "failed to create observer store".to_owned(),
        CallStep::InstantiatePre => "failed to instantiate observer".to_owned(),
        CallStep::Bind => cat2("failed to bind observer: ", message),
        CallStep::Start => cat2("failed to start observer: ", message),
        CallStep::StoreCall => cat2("observer store call failed: ", message),
        CallStep::Call => cat2("observer handler failed: ", message),
    }
}

// ---- Producers and workers ----

pub struct ComponentData {
    pub queue: String,
    pub workload: Option<String>,
    pub cancel_token: u64,
    /// The queue is consumed by a worker outside the host.
    pub external_worker: bool,
}

pub struct TaskQueuePlugin {
    pub tracker: Tracker<ComponentData>,
    /// The queues that are ready.
    pub queues: Table<()>,
    /// When the last heartbeat of each task was accepted, in nanoseconds since the Unix epoch.
    pub heartbeats: Table<u128>,
}

/// The limits of a queue.
pub struct QueueLimits {
    pub payload_max_bytes: u64,
    pub heartbeat_max_info_bytes: u64,
    pub heartbeat_min_interval_ms: u64,
}

/// What to start once a workload is resolved.
pub struct QueueStart {
    pub queue: String,
    /// Whether the plugin itself hands the tasks to workers.
    pub consume: bool,
    /// The subject of the control events.
    pub events_subject: String,
    pub cancel_token: u64,
}

/// The first component that is bound to a queue.
pub open spec fn component_of(p: Seq<(Seq<char>, Owned<ComponentData>)>, queue: Seq<char>) -> Option<
    Seq<char>,
>
    decreases p.len(),
{
    if p.len() == 0 {
        None
    } else if p[0].1.data.queue@ == queue {
        Some(p[0].0)
    } else {
        component_of(p.drop_first(), queue)
    }
}

/// The component that is handed the tasks of a queue: the first that is bound to it, where it has a
/// name and its workload is resolved.
pub open spec fn worker_of(
    m: Map<Seq<char>, Owned<ComponentData>>,
    p: Seq<(Seq<char>, Owned<ComponentData>)>,
    queue: Seq<char>,
) -> Option<Seq<char>> {
    match component_of(p, queue) {
        None => None,
        Some(id) => if id.len() > 0 && m.contains_key(id) && m[id].data.workload is Some {
            Some(id)
        } else {
            None
        },
    }
}

pub open spec fn queue_tokens(d: Seq<ComponentData>) -> Seq<u64> {
    d.map_values(|c: ComponentData| c.cancel_token)
}

/// A state in which a task has ended.
pub open spec fn terminal(s: TaskState) -> bool {
    s == TaskState::Succeeded || s == TaskState::Failed || s == TaskState::DispatchTimeout || s
        == TaskState::ExecutionTimeout || s == TaskState::Cancelled || s
        == TaskState::MaxRetriesExceeded
}

/// The configuration that a component brings for its queue: its own with that of the interface
/// over it. None where it is no component, or has no interface of the queue.
pub fn bind_config(is_component: bool, interfaces: &Vec<WitInterface>, local: &Config) -> (r:
    Option<Config>)
    ensures
        match first_of_package(interfaces@, "custom"@, "task-queue"@) {
            Some(i) if is_component => r is Some && r->0@ == local@.union_prefer_right(i.config@),
            _ => r is None,
        },
{
    match bound_config(interfaces, "custom", "task-queue") {
        Some(config) => if is_component {
            Some(merge_config(local, &config))
        } else {
            None
        },
        None => None,
    }
}

/// `m` is `before` with its cancellation requested; a task that waited is cancelled.
pub open spec fn cancelled_from(m: TaskMeta, before: TaskMeta) -> bool {
    &&& m.cancel_requested
    &&& m.state == if before.state == TaskState::Queued {
        TaskState::Cancelled
    } else {
        before.state
    }
    &&& m.id == before.id
    &&& m.attempt == before.attempt
    &&& m.attempts == before.attempts
    &&& m.created_at_ms == before.created_at_ms
    &&& m.dispatched_at_ms == before.dispatched_at_ms
    &&& m.completed_at_ms == before.completed_at_ms
    &&& m.deadline_ms == before.deadline_ms
}

/// Requests that a task be cancelled: one that still waits is cancelled at once. Returns whether
/// its message is to be purged.
pub fn request_cancel(meta: &mut TaskMeta) -> (r: Result<bool, String>)
    ensures
        if terminal(old(meta).state) {
            *final(meta) == *old(meta) && r is Err && r->Err_0@ == "task already completed"@
        } else {
            cancelled_from(*final(meta), *old(meta)) && r == Ok::<bool, String>(
                old(meta).state == TaskState::Queued,
            )
        },
{
    match meta.state {
        TaskState::Queued => {
            meta.cancel_requested = true;
            meta.state = TaskState::Cancelled;
            Ok(true)
        },
        TaskState::Running => {
            meta.cancel_requested = true;
            Ok(false)
        },
        TaskState::DispatchTimeoutPending => {
            meta.cancel_requested = true;
            Ok(false)
        },
        _ => Err("task already completed".to_owned()),
    }
}

/// Why a cancellation could not be noted.
pub fn update_error(message: &str) -> (r: String)
    ensures
        r@ == "failed to update task metadata: "@ + message@,
{
    cat2("failed to update task metadata: ", message)
}

/// The subject of a task's message.
pub fn task_subject(queue: &str, task_id: &str) -> (r: String)
    ensures
        r@ == queue@ + ".tasks."@ + task_id@,
{
    cat3(queue, ".tasks.", task_id)
}

/// The queue of a component, where it is tracked and the queue is ready.
pub open spec fn queue_of(
    t: Map<Seq<char>, Owned<ComponentData>>,
    queues: Map<Seq<char>, ()>,
    component_id: Seq<char>,
) -> Result<Seq<char>, Seq<char>> {
    match lookup(t, component_id) {
        None => Err("component not tracked"@),
        Some(o) => if queues.contains_key(o.data.queue@) {
            Ok(o.data.queue@)
        } else {
            Err("queue not ready"@)
        },
    }
}

/// Whether a heartbeat comes too soon after the last one; one from before the last one always does.
pub open spec fn too_soon(last: Option<u128>, now: u128, min_interval_ms: u64) -> bool {
    match last {
        None => false,
        Some(l) => now < l || now - l < min_interval_ms * 1_000_000,
    }
}

impl TaskQueuePlugin {
    pub fn new() -> (r: TaskQueuePlugin)
        ensures
            r.tracker@ == Map::<Seq<char>, Owned<ComponentData>>::empty(),
            r.queues@ == Map::<Seq<char>, ()>::empty(),
            r.heartbeats@ == Map::<Seq<char>, u128>::empty(),
    {
        TaskQueuePlugin { tracker: Table::new(), queues: Table::new(), heartbeats: Table::new() }
    }

    pub fn id(&self) -> (r: &'static str)
        ensures
            r@ == "task-queue"@,
    {
        PLUGIN_ID
    }

    pub fn world(&self) -> (r: WitWorld)
        ensures
            r.imports@.len() == 1,
            r.imports@[0].names(
                "custom"@,
                "task-queue"@,
                seq!["producer"@, "task-control"@, "types"@],
                "0.1.0"@,
            ),
            r.exports@.len() == 1,
            r.exports@[0].names("custom"@, "task-queue"@, seq!["observer"@, "worker"@], "0.1.0"@),
    {
        let mut imports: Vec<WitInterface> = Vec::new();
        imports.push(
            WitInterface::of(
                "custom",
                "task-queue",
                three("producer", "task-control", "types"),
                "0.1.0",
            ),
        );
        let mut exports: Vec<WitInterface> = Vec::new();
        exports.push(
            WitInterface::of("custom", "task-queue", two("observer", "worker"), "0.1.0"),
        );
        WitWorld { imports, exports }
    }

    /// Begins to track a component that is bound to a queue. The queue is left to a worker outside
    /// the host where `external-worker` is `true`.
    pub fn on_workload_item_bind(
        &mut self,
        component_id: &str,
        workload_id: &str,
        queue: &str,
        config: &Config,
        cancel_token: u64,
    )
        ensures
            final(self).queues == old(self).queues,
            final(self).heartbeats == old(self).heartbeats,
            put_at(old(self).tracker@, final(self).tracker@, component_id@),
            ({
                let o = final(self).tracker@[component_id@];
                &&& o.workload_id@ == workload_id@
                &&& o.data.queue@ == queue@
                &&& o.data.workload is None
                &&& o.data.cancel_token == cancel_token
                &&& o.data.external_worker == (setting(config@, "external-worker"@) == Some(
                    "true"@,
                ))
            }),
    {
        let external_worker = match config_get(config, "external-worker") {
            Some(t) => same(&t, "true"),
            None => false,
        };
        let owned = Owned {
            workload_id: workload_id.to_owned(),
            data: ComponentData {
                queue: queue.to_owned(),
                workload: None,
                cancel_token,
                external_worker,
            },
        };
        proof {
            lemma_put(self.tracker@, component_id@, owned);
        }
        self.tracker.insert(component_id.to_owned(), owned);
    }

    /// Notes the workload of a component; says what to start for its queue. The control events are
    /// always listened to.
    pub fn on_workload_resolved(&mut self, workload: &str, component_id: &str) -> (r: Option<
        QueueStart,
    >)
        ensures
            final(self).queues == old(self).queues,
            final(self).heartbeats == old(self).heartbeats,
            match lookup(old(self).tracker@, component_id@) {
                None => r is None && final(self).tracker@ == old(self).tracker@,
                Some(o) => {
                    let n = final(self).tracker@[component_id@];
                    &&& put_at(old(self).tracker@, final(self).tracker@, component_id@)
                    &&& n.workload_id == o.workload_id
                    &&& n.data.queue == o.data.queue
                    &&& n.data.cancel_token == o.data.cancel_token
                    &&& n.data.external_worker == o.data.external_worker
                    &&& opt_view(n.data.workload) == Some(workload@)
                    &&& r is Some
                    &&& r->0.queue@ == o.data.queue@
                    &&& r->0.consume == !o.data.external_worker
                    &&& r->0.events_subject@ == o.data.queue@ + ".events"@
                    &&& r->0.cancel_token == o.data.cancel_token
                },
            },
    {
        let ghost before = self.tracker@;
        match self.tracker.remove(component_id) {
            None => {
                assert(before.remove(component_id@) =~= before);
                None
            },
            Some(o) => {
                let mut data = o.data;
                data.workload = Some(workload.to_owned());
                let start = QueueStart {
                    queue: data.queue.clone(),
                    consume: !data.external_worker,
                    events_subject: cat2(&data.queue, ".events"),
                    cancel_token: data.cancel_token,
                };
                let owned = Owned { workload_id: o.workload_id, data };
                proof {
                    lemma_put(before, component_id@, owned);
                }
                self.tracker.insert(component_id.to_owned(), owned);
                Some(start)
            },
        }
    }

    /// Forgets the components of a workload; returns the tokens that cancel what runs for them.
    pub fn on_workload_unbind(&mut self, workload_id: &str) -> (r: Vec<u64>)
        ensures
            final(self).queues == old(self).queues,
            final(self).heartbeats == old(self).heartbeats,
            final(self).tracker@ == outside_workload(old(self).tracker@, workload_id@),
            r@ == queue_tokens(data_of(old(self).tracker.pairs(), workload_id@)),
    {
        let gone = self.tracker.remove_workload(workload_id);
        let mut tokens: Vec<u64> = Vec::new();
        let mut i: usize = 0;
        while i < gone.len()
            invariant
                i <= gone@.len(),
                tokens@ == queue_tokens(gone@.take(i as int)),
            decreases gone@.len() - i,
        {
            tokens.push(gone[i].cancel_token);
            assert(queue_tokens(gone@.take(i + 1)) =~= queue_tokens(gone@.take(i as int)).push(
                gone@[i as int].cancel_token,
            ));
            i = i + 1;
        }
        assert(gone@.take(gone@.len() as int) == gone@);
        tokens
    }

    /// Notes that a queue is ready.
    pub fn queue_ready(&mut self, queue: &str)
        ensures
            final(self).tracker == old(self).tracker,
            final(self).heartbeats == old(self).heartbeats,
            final(self).queues@ == old(self).queues@.insert(queue@, ()),
    {
        self.queues.insert(queue.to_owned(), ());
    }

    /// The component that a queue's observers and workers are found in: the first one bound to it.
    pub fn find_producer_component(&self, queue: &str) -> (r: Option<String>)
        ensures
            opt_view(r) == component_of(self.tracker.pairs(), queue@),
    {
        let ghost pairs = self.tracker.pairs();
        let mut i: usize = 0;
        assert(pairs.skip(0) == pairs);
        while i < self.tracker.len()
            invariant
                pairs == self.tracker.pairs(),
                i <= pairs.len(),
                component_of(pairs, queue@) == component_of(pairs.skip(i as int), queue@),
            decreases pairs.len() - i,
        {
            assert(pairs.skip(i as int).drop_first() == pairs.skip(i + 1));
            let (id, o) = self.tracker.at(i);
            if same(&o.data.queue, queue) {
                return Some(id.clone());
            }
            i = i + 1;
        }
        None
    }

    /// The component that works on a queue; an empty name where there is none.
    pub fn find_worker_component(&self, queue: &str) -> (r: String)
        ensures
            r@ == match component_of(self.tracker.pairs(), queue@) {
                Some(id) => id,
                None => Seq::<char>::empty(),
            },
    {
        match self.find_producer_component(queue) {
            Some(id) => id,
            None => String::new(),
        }
    }

    /// The component that is handed the tasks of a queue: the one that works on it, where its workload
    /// is resolved.
    pub fn worker_for(&self, queue: &str) -> (r: Option<String>)
        ensures
            opt_view(r) == worker_of(self.tracker@, self.tracker.pairs(), queue@),
    {
        let component_id = self.find_worker_component(queue);
        if component_id.as_str().is_empty() {
            return None;
        }
        match self.tracker.get(&component_id) {
            None => None,
            Some(o) => if o.data.workload.is_some() {
                Some(component_id)
            } else {
                None
            },
        }
    }

    /// The queue that a component submits to, once it is ready.
    pub fn ready_queue(&self, component_id: &str) -> (r: Result<String, String>)
        ensures
            match r {
                Ok(q) => queue_of(self.tracker@, self.queues@, component_id@) == Ok::<
                    Seq<char>,
                    Seq<char>,
                >(q@),
                Err(e) => queue_of(self.tracker@, self.queues@, component_id@) == Err::<
                    Seq<char>,
                    Seq<char>,
                >(e@),
            },
    {
        match self.tracker.get(component_id) {
            None => Err("component not tracked".to_owned()),
            Some(o) => if self.queues.contains(&o.data.queue) {
                Ok(o.data.queue.clone())
            } else {
                Err("queue not ready".to_owned())
            },
        }
    }

    /// The queue to which a task of a component goes, where its payload is not too long.
    pub fn submit(&self, component_id: &str, payload: &Vec<u8>, limits: &QueueLimits) -> (r: Result<
        String,
        String,
    >)
        ensures
            match queue_of(self.tracker@, self.queues@, component_id@) {
                Err(e) => r is Err && r->Err_0@ == e,
                Ok(q) => if payload@.len() > limits.payload_max_bytes {
                    r is Err && r->Err_0@ == "payload exceeds "@ + decimal(
                        limits.payload_max_bytes as nat,
                    ) + " bytes"@
                } else {
                    r is Ok && r->Ok_0@ == q
                },
            },
    {
        match self.ready_queue(component_id) {
            Err(e) => Err(e),
            Ok(q) => if payload.len() as u64 > limits.payload_max_bytes {
                let max = u64_text(limits.payload_max_bytes);
                Err(cat3("payload exceeds ", &max, " bytes"))
            } else {
                Ok(q)
            },
        }
    }

    /// Takes a heartbeat of a task: the observer to be told of it, if the queue has one.
    pub fn send_heartbeat(
        &mut self,
        component_id: &str,
        task_id: &str,
        info: &str,
        now: u128,
        limits: &QueueLimits,
    ) -> (r: Result<Option<(String, CallbackEvent)>, String>)
        ensures
            final(self).tracker == old(self).tracker,
            final(self).queues == old(self).queues,
            match lookup(old(self).tracker@, component_id@) {
                None => final(self).heartbeats@ == old(self).heartbeats@ && r is Err && r->Err_0@
                    == "component not tracked"@,
                Some(o) => if encode_utf8(info@).len() > limits.heartbeat_max_info_bytes {
                    final(self).heartbeats@ == old(self).heartbeats@ && r is Err && r->Err_0@
                        == "info exceeds "@ + decimal(limits.heartbeat_max_info_bytes as nat)
                        + " bytes"@
                } else {
                    match component_of(old(self).tracker.pairs(), o.data.queue@) {
                        None => final(self).heartbeats@ == old(self).heartbeats@ && r is Ok
                            && r->Ok_0 is None,
                        Some(observer) => if too_soon(
                            lookup(old(self).heartbeats@, task_id@),
                            now,
                            limits.heartbeat_min_interval_ms,
                        ) {
                            final(self).heartbeats@ == old(self).heartbeats@ && r is Err
                                && r->Err_0@ == "heartbeat exceeds minimum interval of "@ + decimal(
                                limits.heartbeat_min_interval_ms as nat,
                            ) + " ms"@
                        } else {
                            &&& final(self).heartbeats@ == old(self).heartbeats@.insert(
                                task_id@,
                                now,
                            )
                            &&& match r {
                                Ok(Some(told)) => told.0@ == observer && match told.1 {
                                    CallbackEvent::Heartbeat { id, info: i } => id@ == task_id@
                                        && i@ == info@,
                                    _ => false,
                                },
                                _ => false,
                            }
                        },
                    }
                },
            },
    {
        let queue = match self.tracker.get(component_id) {
            None => {
                return Err("component not tracked".to_owned());
            },
            Some(o) => o.data.queue.clone(),
        };
        let bytes: usize = info.as_bytes().len();
        if bytes as u64 > limits.heartbeat_max_info_bytes {
            let max = u64_text(limits.heartbeat_max_info_bytes);
            return Err(cat3("info exceeds ", &max, " bytes"));
        }
        let observer = match self.find_producer_component(&queue) {
            None => {
                return Ok(None);
            },
            Some(c) => c,
        };
        let accepted = match self.heartbeats.get(task_id) {
            None => true,
            Some(last) => now >= *last && now - *last >= limits.heartbeat_min_interval_ms as u128
                * 1_000_000,
        };
        if !accepted {
            let min = u64_text(limits.heartbeat_min_interval_ms);
            return Err(cat3("heartbeat exceeds minimum interval of ", &min, " ms"));
        }
        self.heartbeats.insert(task_id.to_owned(), now);
        Ok(
            Some(
                (
                    observer,
                    CallbackEvent::Heartbeat { id: task_id.to_owned(), info: info.to_owned() },
                ),
            ),
        )
    }

    /// What a producer is told of one of its tasks, given what is kept of it and the status that
    /// stands for its state: nothing where the queue is not ready or the task is not kept.
    pub fn query_status(&self, component_id: &str, found: &Option<(TaskMeta, TaskStatus)>) -> (r:
        Result<Option<TaskInfo>, String>)
        ensures
            if !self.tracker@.contains_key(component_id@) {
                r is Err && r->Err_0@ == "component not tracked"@
            } else if queue_of(self.tracker@, self.queues@, component_id@) is Err {
                r == Ok::<Option<TaskInfo>, String>(None)
            } else {
                r is Ok && match *found {
                    None => r->Ok_0 is None,
                    Some(f) => r->Ok_0 is Some && tells(r->Ok_0->0, f.0, f.1),
                }
            },
    {
        if !self.tracker.contains(component_id) {
            return Err("component not tracked".to_owned());
        }
        match self.ready_queue(component_id) {
            Err(_) => Ok(None),
            Ok(_) => match found {
                None => Ok(None),
                Some(f) => Ok(Some(guest_task_info(&f.0, f.1))),
            },
        }
    }

    /// Requests that a task of a component be cancelled, given what is kept of it: what is to be
    /// kept from now on, and the subject to purge where the task still waited.
    pub fn cancel_task(&self, component_id: &str, task_id: &str, found: Result<TaskMeta, String>)
        -> (r: Result<(TaskMeta, Option<String>), String>)
        ensures
            match queue_of(self.tracker@, self.queues@, component_id@) {
                Err(e) => r is Err && r->Err_0@ == e,
                Ok(q) => match found {
                    Err(e) => r is Err && r->Err_0@ == "task not found: "@ + e@,
                    Ok(m) => if terminal(m.state) {
                        r is Err && r->Err_0@ == "task already completed"@
                    } else {
                        match r {
                            Ok(c) => cancelled_from(c.0, m) && opt_view(c.1) == if m.state
                                == TaskState::Queued {
                                Some(q + ".tasks."@ + task_id@)
                            } else {
                                None
                            },
                            Err(_) => false,
                        }
                    },
                },
            },
    {
        let queue = match self.ready_queue(component_id) {
            Err(e) => {
                return Err(e);
            },
            Ok(q) => q,
        };
        match found {
            Err(e) => Err(cat2("task not found: ", &e)),
            Ok(m) => {
                let mut meta = m;
                match request_cancel(&mut meta) {
                    Err(e) => Err(e),
                    Ok(purge) => if purge {
                        Ok((meta, Some(task_subject(&queue, task_id))))
                    } else {
                        Ok((meta, None))
                    },
                }
            },
        }
    }

    /// Whether a task of a component was asked to stop, given what is kept of the task.
    pub fn is_cancelled(&self, component_id: &str, meta: &Option<TaskMeta>) -> (r: bool)
        ensures
            r == (queue_of(self.tracker@, self.queues@, component_id@) is Ok && match *meta {
                Some(m) => m.cancel_requested,
                None => false,
            }),
    {
        match self.ready_queue(component_id) {
            Err(_) => false,
            Ok(_) => match meta {
                Some(m) => m.cancel_requested,
                None => false,
            },
        }
    }
}

// ---- Laws ----

/// The name of every status is read back as that status.
pub proof fn status_names_read_back(s: TaskStatus)
    ensures
        status_named(status_name(s)) == s,
{
    reveal_strlit("succeeded");
    reveal_strlit("failed");
    reveal_strlit("dispatch-timeout");
    reveal_strlit("execution-timeout");
    reveal_strlit("cancelled");
    reveal_strlit("max-retries-exceeded");
    assert("succeeded"@[0] == 's');
    assert("failed"@[0] == 'f');
    assert("dispatch-timeout"@[0] == 'd');
    assert("execution-timeout"@[0] == 'e');
    assert("cancelled"@[0] == 'c');
    assert("max-retries-exceeded"@[0] == 'm');
}

/// A task that has ended cannot be cancelled, and one that has a status has ended or is about to.
pub proof fn ended_tasks_have_a_status(s: TaskState)
    ensures
        terminal(s) ==> status_of(s) is Some,
        status_of(s) is Some ==> terminal(s) || s == TaskState::DispatchTimeoutPending,
{
}

/// An attempt is either completed and acknowledged, or completed and given up, or delivered again:
/// the last step says which, and a task is delivered again only while attempts are left.
pub proof fn every_attempt_is_settled(o: WorkerOutcome, attempt: u32, max_deliver: i64)
    ensures
        ({
            let steps = steps_after(o, attempt, max_deliver);
            &&& steps.len() >= 2
            &&& match steps.last() {
                StepView::Ack => o is Finished,
                StepView::Term => !(o is Finished) && last_attempt(attempt, max_deliver),
                StepView::Nak { attempt: a } => !(o is Finished) && a == attempt
                    && !last_attempt(attempt, max_deliver),
                _ => false,
            }
        }),
{
}

/// Once an attempt is the last one, every later one is too.
pub proof fn attempts_run_out(attempt: u32, later: u32, max_deliver: i64)
    requires
        attempt <= later,
        last_attempt(attempt, max_deliver),
    ensures
        last_attempt(later, max_deliver),
{
}

/// A heartbeat that was accepted makes the next one wait for the minimal interval.
pub proof fn heartbeats_keep_their_distance(first: u128, second: u128, min_interval_ms: u64)
    requires
        !too_soon(Some(first), second, min_interval_ms),
    ensures
        second >= first + min_interval_ms * 1_000_000,
{
}

/// Observers can tell any two statuses apart.
pub proof fn observer_statuses_are_distinct(a: TaskStatus, b: TaskStatus)
    requires
        observer_status(a) == observer_status(b),
    ensures
        a == b,
{
}

/// Observers are told a status by its own name, and the source of a failure likewise.
pub proof fn observers_are_told_the_same_status(s: TaskStatus, f: AttemptErrorSource)
    ensures
        observer_status(s) is Succeeded <==> s is Succeeded,
        observer_status(s) is Failed <==> s is Failed,
        observer_status(s) is DispatchTimeout <==> s is DispatchTimeout,
        observer_status(s) is ExecutionTimeout <==> s is ExecutionTimeout,
        observer_status(s) is Cancelled <==> s is Cancelled,
        observer_status(s) is MaxRetriesExceeded <==> s is MaxRetriesExceeded,
        observer_source(f) is Guest <==> f is Guest,
        observer_source(f) is System <==> f is System,
{
}

/// A task that has ended is reported by the status of the same name; one that waits for its
/// dispatch to time out counts as timed out, and one that waits or runs has no status.
pub proof fn states_are_reported_by_their_name(s: TaskState)
    ensures
        status_of(s) is None <==> s is Queued || s is Running,
        status_of(s) == Some(TaskStatus::Succeeded) <==> s is Succeeded,
        status_of(s) == Some(TaskStatus::Failed) <==> s is Failed,
        status_of(s) == Some(TaskStatus::DispatchTimeout) <==> s is DispatchTimeout || s
            is DispatchTimeoutPending,
        status_of(s) == Some(TaskStatus::ExecutionTimeout) <==> s is ExecutionTimeout,
        status_of(s) == Some(TaskStatus::Cancelled) <==> s is Cancelled,
        status_of(s) == Some(TaskStatus::MaxRetriesExceeded) <==> s is MaxRetriesExceeded,
        terminal(s) <==> !(s is Queued || s is Running || s is DispatchTimeoutPending),
{
}

/// The names of statuses and sources in events; a name that is no status stands for a failure.
pub proof fn names_in_events(s: TaskStatus, f: AttemptErrorSource, t: Seq<char>)
    ensures
        s is Succeeded ==> status_name(s) == "succeeded"@,
        s is Failed ==> status_name(s) == "failed"@,
        s is DispatchTimeout ==> status_name(s) == "dispatch-timeout"@,
        s is ExecutionTimeout ==> status_name(s) == "execution-timeout"@,
        s is Cancelled ==> status_name(s) == "cancelled"@,
        s is MaxRetriesExceeded ==> status_name(s) == "max-retries-exceeded"@,
        f is Guest ==> source_name(f) == "guest"@,
        f is System ==> source_name(f) == "system"@,
        (forall|a: TaskStatus| #[trigger] status_name(a) != t) ==> status_named(t) is Failed,
        forall|a: TaskStatus| #[trigger] status_name(a) == t ==> status_named(t) == a,
{
    assert(status_name(TaskStatus::Succeeded) == "succeeded"@);
    assert(status_name(TaskStatus::ExecutionTimeout) == "execution-timeout"@);
    assert(status_name(TaskStatus::DispatchTimeout) == "dispatch-timeout"@);
    assert(status_name(TaskStatus::Cancelled) == "cancelled"@);
    assert(status_name(TaskStatus::MaxRetriesExceeded) == "max-retries-exceeded"@);
    assert forall|a: TaskStatus| #[trigger] status_name(a) == t implies status_named(t) == a by {
        status_names_read_back(a);
    }
}

/// A guest is told of a task what the queue keeps of it; attempts count from nought, and there is
/// none before the first.
pub proof fn guests_are_told_what_is_kept(i: TaskInfo, m: TaskMeta, status: TaskStatus)
    requires
        tells(i, m, status),
    ensures
        i.id@ == m.id@,
        i.status == status,
        m.attempt == 0 <==> i.attempt is None,
        i.attempt is Some ==> i.attempt->0 + 1 == m.attempt,
        i.created_at_ms == m.created_at_ms,
        i.dispatched_at_ms == m.dispatched_at_ms,
        i.completed_at_ms == m.completed_at_ms,
        i.cancel_requested == m.cancel_requested,
{
}

/// The end of a task as a worker reports it: for every status, a report that names the task, the
/// status and the attempt is read as just that.
pub proof fn reported_results_are_read(
    j: JsonView,
    id: Seq<char>,
    status: TaskStatus,
    attempt: u32,
    e: Option<CallbackEvent>,
)
    requires
        control_event(j, e),
        says_text(j, "type"@, "complete"@),
        says_text(j, "id"@, id),
    ensures
        match e {
            Some(CallbackEvent::Complete { result }) => {
                &&& result.id@ == id
                &&& says_text(j, "status"@, status_name(status)) ==> result.status == status
                &&& (forall|s: Seq<char>| !#[trigger] says_text(j, "status"@, s)) ==> result.status
                    is Failed
                &&& says_number(j, "attempt"@, attempt as u64) ==> result.attempt == attempt
                &&& (forall|n: u64| !#[trigger] says_number(j, "attempt"@, n)) ==> result.attempt == 1
                &&& forall|s: Seq<char>| #[trigger]
                    says_text(j, "error"@, s) <==> opt_view(result.error) == Some(s)
                &&& forall|s: Seq<char>| #[trigger]
                    says_text(j, "output"@, s) ==> bytes_view(result.output) == base64_bytes(s)
                &&& (forall|s: Seq<char>| !#[trigger] says_text(j, "output"@, s)) ==> result.output
                    is None
            },
            _ => false,
        },
{
    strings_are_found_by_their_key(j, "type"@);
    strings_are_found_by_their_key(j, "id"@);
    strings_are_found_by_their_key(j, "status"@);
    strings_are_found_by_their_key(j, "error"@);
    strings_are_found_by_their_key(j, "output"@);
    numbers_are_found_by_their_key(j, "attempt"@);
    status_names_read_back(status);
    status_names_read_back(TaskStatus::Failed);
    lemma_absent_text(j, "status"@);
    lemma_absent_text(j, "output"@);
    if unsigned_member(j, "attempt"@) is Some {
        assert(says_number(j, "attempt"@, unsigned_member(j, "attempt"@)->0));
    }
}

proof fn lemma_absent_text(j: JsonView, key: Seq<char>)
    ensures
        (forall|s: Seq<char>| !#[trigger] says_text(j, key, s)) ==> text_member(j, key) is None,
{
    strings_are_found_by_their_key(j, key);
    if text_member(j, key) is Some {
        assert(says_text(j, key, text_member(j, key)->0));
    }
}

/// A failed attempt as a worker reports it: its number, its message, and its source, which is the
/// guest unless the report names the system. Times are not reported.
pub proof fn reported_failures_are_read(j: JsonView, id: Seq<char>, attempt: u32, e: Option<CallbackEvent>)
    requires
        control_event(j, e),
        says_text(j, "type"@, "attempt_failed"@),
        says_text(j, "id"@, id),
    ensures
        match e {
            Some(CallbackEvent::AttemptFailed { event }) => {
                &&& event.id@ == id
                &&& event.source is System <==> says_text(j, "source"@, "system"@)
                &&& says_number(j, "attempt"@, attempt as u64) ==> event.attempt == attempt
                &&& (forall|n: u64| !#[trigger] says_number(j, "attempt"@, n)) ==> event.attempt == 1
                &&& forall|s: Seq<char>| #[trigger] says_text(j, "error"@, s) ==> event.error@ == s
                &&& (forall|s: Seq<char>| !#[trigger] says_text(j, "error"@, s))
                    ==> event.error@.len() == 0
                &&& event.started_at_ms is None && event.failed_at_ms is None && event.duration_ms
                    is None
            },
            _ => false,
        },
{
    lemma_event_types();
    strings_are_found_by_their_key(j, "type"@);
    strings_are_found_by_their_key(j, "id"@);
    strings_are_found_by_their_key(j, "error"@);
    strings_are_found_by_their_key(j, "source"@);
    numbers_are_found_by_their_key(j, "attempt"@);
    lemma_absent_text(j, "error"@);
    if unsigned_member(j, "attempt"@) is Some {
        assert(says_number(j, "attempt"@, unsigned_member(j, "attempt"@)->0));
    }
}

proof fn lemma_event_types()
    ensures
        "complete"@ != "attempt_failed"@,
        "complete"@ != "heartbeat"@,
        "attempt_failed"@ != "heartbeat"@,
{
    reveal_strlit("complete");
    reveal_strlit("attempt_failed");
    reveal_strlit("heartbeat");
    assert("complete"@[0] == 'c' && "attempt_failed"@[0] == 'a' && "heartbeat"@[0] == 'h');
}

/// A heartbeat as a worker reports it; a report that names no task, no type or another type is not
/// one of a task.
pub proof fn reported_heartbeats_are_read(j: JsonView, id: Seq<char>, e: Option<CallbackEvent>)
    requires
        control_event(j, e),
    ensures
        says_text(j, "type"@, "heartbeat"@) && says_text(j, "id"@, id) ==> match e {
            Some(CallbackEvent::Heartbeat { id: i, info }) => {
                &&& i@ == id
                &&& forall|s: Seq<char>| #[trigger] says_text(j, "info"@, s) ==> info@ == s
                &&& (forall|s: Seq<char>| !#[trigger] says_text(j, "info"@, s)) ==> info@.len() == 0
            },
            _ => false,
        },
        (forall|s: Seq<char>| !#[trigger] says_text(j, "id"@, s)) ==> e is None,
        !says_text(j, "type"@, "complete"@) && !says_text(j, "type"@, "attempt_failed"@)
            && !says_text(j, "type"@, "heartbeat"@) ==> e is None,
{
    lemma_event_types();
    strings_are_found_by_their_key(j, "type"@);
    strings_are_found_by_their_key(j, "id"@);
    strings_are_found_by_their_key(j, "info"@);
    lemma_absent_text(j, "id"@);
    lemma_absent_text(j, "info"@);
}

/// The id of a task is read back from its subject, where it holds no dot.
pub proof fn subjects_name_their_task(before: Seq<char>, id: Seq<char>)
    requires
        !id.contains('.'),
    ensures
        last_token(before + "."@ + id) == id,
        last_token(id) == id,
        last_token(before + ".tasks."@ + id) == id,
{
    reveal_strlit(".");
    reveal_strlit(".tasks.");
    lemma_last_token(before + "."@, id);
    lemma_last_token(before + ".tasks."@, id);
    lemma_last_token(Seq::<char>::empty(), id);
    assert(Seq::<char>::empty() + id =~= id);
}

proof fn lemma_last_token(before: Seq<char>, id: Seq<char>)
    requires
        !id.contains('.'),
        before.len() == 0 || before.last() == '.',
    ensures
        last_token(before + id) == id,
    decreases id.len(),
{
    let s = before + id;
    if id.len() == 0 {
        assert(s =~= before);
        assert(last_token(s) =~= id);
    } else {
        let d = id.drop_last();
        assert(id.contains(id.last()));
        assert(!d.contains('.')) by {
            if d.contains('.') {
                let i = choose|i: int| 0 <= i < d.len() && d[i] == '.';
                assert(id[i] == '.');
            }
        }
        lemma_last_token(before, d);
        assert(s.drop_last() =~= before + d);
        assert(d.push(id.last()) =~= id);
    }
}

/// Attempts are counted from one: a count of deliveries below one counts as one, and every other
/// that fits in 32 bits as itself.
pub proof fn attempts_count_from_one(n: i64)
    ensures
        n < 1 ==> count_of(n) == 1,
        1 <= n <= 0xffff_ffff ==> count_of(n) == n,
        0 <= count_of(n) <= 0xffff_ffff,
        1 <= n <= 0xffff_ffff ==> forall|a: u32| #[trigger] last_attempt(a, n) <==> a >= n,
        n < 1 ==> forall|a: u32| #[trigger] last_attempt(a, n) <==> a >= 1,
{
}

/// A worker that succeeds completes the task with its output, before the delivery is acknowledged.
pub proof fn success_completes_the_task(output: Option<Vec<u8>>, attempt: u32, max_deliver: i64)
    ensures
        ({
            let steps = steps_after(WorkerOutcome::Finished(output), attempt, max_deliver);
            &&& steps.len() == 2
            &&& match steps[0] {
                StepView::Complete { state, output: o, reason } => state is Succeeded && reason
                    is None && match output {
                    Some(v) => o == Some(v@),
                    None => o is None,
                },
                _ => false,
            }
            &&& steps[1] is Ack
        }),
{
}

/// A worker that fails, or is missing, leaves a record of it first. The task is completed, as one
/// with no attempts left, only at the last attempt; before that it is delivered again. A missing
/// worker is recorded as a fault of the system too.
pub proof fn failures_are_recorded_and_tried_again(
    o: WorkerOutcome,
    attempt: u32,
    max_deliver: i64,
)
    requires
        !(o is Finished),
    ensures
        ({
            let steps = steps_after(o, attempt, max_deliver);
            let given_up = last_attempt(attempt, max_deliver);
            let error = match o {
                WorkerOutcome::Failed(e) => e@,
                _ => "no worker component bound to queue"@,
            };
            let first: int = if o is NoWorker { 1 } else { 0 };
            &&& steps.len() == first + if given_up { 3int } else { 2int }
            &&& o is NoWorker ==> steps[0] == (StepView::RecordFailure {
                source: AttemptErrorSource::System,
                error,
            })
            &&& steps[first] == (StepView::RecordFailure { source: AttemptErrorSource::Guest, error })
            &&& given_up ==> steps[first + 1] == (StepView::Complete {
                state: TaskState::MaxRetriesExceeded,
                output: None,
                reason: Some("max retries exceeded"@),
            }) && steps[first + 2] == StepView::Term
            &&& !given_up ==> steps[first + 1] == (StepView::Nak { attempt })
        }),
{
}

/// An output is archived as its bytes in base 64, and a missing output as none.
pub proof fn outputs_are_archived(o: Option<Seq<u8>>)
    ensures
        o is Some ==> opt_base64(o) == Some(base64_text(o->0)),
        o is None ==> opt_base64(o) is None,
{
}

/// The component of a queue is the first one bound to it.
pub proof fn queues_go_to_the_first_component(p: Seq<(Seq<char>, Owned<ComponentData>)>, queue: Seq<char>)
    ensures
        match component_of(p, queue) {
            Some(id) => exists|i: int|
                0 <= i < p.len() && (#[trigger] p[i]).0 == id && p[i].1.data.queue@ == queue
                    && forall|k: int| 0 <= k < i ==> (#[trigger] p[k]).1.data.queue@ != queue,
            None => forall|k: int| 0 <= k < p.len() ==> (#[trigger] p[k]).1.data.queue@ != queue,
        },
    decreases p.len(),
{
    if p.len() > 0 {
        let d = p.drop_first();
        queues_go_to_the_first_component(d, queue);
        if p[0].1.data.queue@ != queue {
            match component_of(d, queue) {
                Some(id) => {
                    let i = choose|i: int|
                        0 <= i < d.len() && (#[trigger] d[i]).0 == id && d[i].1.data.queue@ == queue
                            && forall|k: int| 0 <= k < i ==> (#[trigger] d[k]).1.data.queue@ != queue;
                    assert(p[i + 1] == d[i]);
                    assert forall|k: int| 0 <= k < i + 1 implies (#[trigger] p[k]).1.data.queue@
                        != queue by {
                        if k > 0 {
                            assert(d[k - 1] == p[k]);
                        }
                    }
                },
                None => {
                    assert forall|k: int| 0 <= k < p.len() implies (#[trigger] p[k]).1.data.queue@
                        != queue by {
                        if k > 0 {
                            assert(d[k - 1] == p[k]);
                        }
                    }
                },
            }
        }
    }
}

/// A worker is one whose workload is resolved.
pub proof fn workers_are_resolved(
    m: Map<Seq<char>, Owned<ComponentData>>,
    p: Seq<(Seq<char>, Owned<ComponentData>)>,
    queue: Seq<char>,
)
    ensures
        match worker_of(m, p, queue) {
            Some(id) => component_of(p, queue) == Some(id) && id.len() > 0 && m.contains_key(id)
                && m[id].data.workload is Some,
            None => match component_of(p, queue) {
                Some(id) => id.len() == 0 || !m.contains_key(id) || m[id].data.workload is None,
                None => true,
            },
        },
{
}

/// Cancelling asks a running task to stop and stops one that still waits; nothing else of it
/// changes.
pub proof fn cancelling_stops_waiting_tasks(m: TaskMeta, before: TaskMeta)
    requires
        cancelled_from(m, before),
    ensures
        m.cancel_requested,
        before.state is Queued ==> m.state is Cancelled,
        !(before.state is Queued) ==> m.state == before.state,
        m.id@ == before.id@ && m.attempt == before.attempt && m.attempts@ == before.attempts@,
        m.created_at_ms == before.created_at_ms && m.deadline_ms == before.deadline_ms,
        m.dispatched_at_ms == before.dispatched_at_ms && m.completed_at_ms == before.completed_at_ms,
{
}

/// A component works on its own queue, once that is ready.
pub proof fn components_use_their_own_queue(
    t: Map<Seq<char>, Owned<ComponentData>>,
    queues: Map<Seq<char>, ()>,
    id: Seq<char>,
)
    ensures
        match queue_of(t, queues, id) {
            Ok(q) => t.contains_key(id) && q == t[id].data.queue@ && queues.contains_key(q),
            Err(e) => if t.contains_key(id) {
                !queues.contains_key(t[id].data.queue@) && e == "queue not ready"@
            } else {
                e == "component not tracked"@
            },
        },
{
}

/// A heartbeat is refused only within the interval after the one before; the first never is.
pub proof fn heartbeats_in_time_are_taken(last: u128, now: u128, min_interval_ms: u64)
    ensures
        !too_soon(None, now, min_interval_ms),
        too_soon(Some(last), now, min_interval_ms) <==> now < last + min_interval_ms * 1_000_000,
{
}

/// Unbinding gives back the token of each component, in order.
pub proof fn every_component_is_cancelled(d: Seq<ComponentData>)
    ensures
        queue_tokens(d).len() == d.len(),
        forall|i: int| 0 <= i < d.len() ==> #[trigger] queue_tokens(d)[i] == d[i].cancel_token,
{
}

/// The plugin goes by its own name, and takes and gives the interfaces of its own package.
pub proof fn the_plugin_and_its_world(p: TaskQueuePlugin, id: &'static str, w: WitWorld)
    requires
        call_ensures(TaskQueuePlugin::id, (&p,), id),
        call_ensures(TaskQueuePlugin::world, (&p,), w),
    ensures
        id@ == "task-queue"@,
        w.imports@.len() == 1,
        w.imports@[0].names(
            "custom"@,
            "task-queue"@,
            seq!["producer"@, "task-control"@, "types"@],
            "0.1.0"@,
        ),
        w.exports@.len() == 1,
        w.exports@[0].names("custom"@, "task-queue"@, seq!["observer"@, "worker"@], "0.1.0"@),
{
}

/// A task is found again by the subject it was sent under, where its id holds no dot.
pub proof fn tasks_are_found_by_their_subject(
    queue: &str,
    id: &str,
    sent: String,
    subject: &str,
    found: String,
)
    requires
        !id@.contains('.'),
        call_ensures(task_subject, (queue, id), sent),
        subject@ == sent@,
        call_ensures(task_id_of, (subject,), found),
    ensures
        found@ == id@,
{
    subjects_name_their_task(queue@, id@);
}

/// Observers are told of a result and of a failure as they are: the same task, attempt, output,
/// error and times, with the status and the source by the same name.
pub proof fn observers_are_told_everything(
    result: TaskResult,
    r: ObserverTaskResult,
    event: AttemptFailure,
    f: ObserverAttemptFailure,
)
    requires
        call_ensures(to_observer_task_result, (result,), r),
        call_ensures(to_observer_attempt_failure, (event,), f),
    ensures
        r.id@ == result.id@ && r.attempt == result.attempt,
        r.output == result.output,
        r.error == result.error,
        match result.status {
            TaskStatus::Succeeded => r.status is Succeeded,
            TaskStatus::Failed => r.status is Failed,
            TaskStatus::DispatchTimeout => r.status is DispatchTimeout,
            TaskStatus::ExecutionTimeout => r.status is ExecutionTimeout,
            TaskStatus::Cancelled => r.status is Cancelled,
            TaskStatus::MaxRetriesExceeded => r.status is MaxRetriesExceeded,
        },
        f.id@ == event.id@ && f.attempt == event.attempt && f.error@ == event.error@,
        f.started_at_ms == event.started_at_ms && f.failed_at_ms == event.failed_at_ms,
        f.duration_ms == event.duration_ms,
        match event.source {
            AttemptErrorSource::Guest => f.source is Guest,
            AttemptErrorSource::System => f.source is System,
        },
{
}

/// The status of a task that ended is the one of its state, and its name in events is read back as
/// that status.
pub proof fn statuses_by_name(state: TaskState, s: TaskStatus, name: &'static str)
    requires
        state is Succeeded || state is Failed || state is DispatchTimeout || state is ExecutionTimeout
            || state is Cancelled || state is MaxRetriesExceeded,
        call_ensures(status_variant, (&state,), s),
        call_ensures(TaskStatus::as_str, (&s,), name),
    ensures
        state is Succeeded ==> s is Succeeded && name@ == "succeeded"@,
        state is Failed ==> s is Failed && name@ == "failed"@,
        state is DispatchTimeout ==> s is DispatchTimeout && name@ == "dispatch-timeout"@,
        state is ExecutionTimeout ==> s is ExecutionTimeout && name@ == "execution-timeout"@,
        state is Cancelled ==> s is Cancelled && name@ == "cancelled"@,
        state is MaxRetriesExceeded ==> s is MaxRetriesExceeded && name@ == "max-retries-exceeded"@,
        status_named(name@) == s,
{
    status_names_read_back(s);
}

/// The number of an attempt is that of its delivery, from one on, and one where it is not known.
pub proof fn attempts_are_deliveries(delivered: Option<i64>, r: u32)
    requires
        call_ensures(attempt_of, (delivered,), r),
    ensures
        delivered is None ==> r == 1,
        delivered is Some && delivered->0 < 1 ==> r == 1,
        delivered is Some && 1 <= delivered->0 <= 0xffff_ffff ==> r == delivered->0,
{
}

/// A duration is the time from start to end, and nought where the clock went back.
pub proof fn durations_are_differences(now: u64, started: u64, r: u64)
    requires
        call_ensures(duration_since, (now, started), r),
    ensures
        started <= now ==> started + r == now,
        started > now ==> r == 0,
{
}

/// What failed in calling a worker is told by its step.
pub proof fn failed_workers_are_told(
    m: &str,
    a: String,
    b: String,
    c: String,
    d: String,
    e: String,
    f: String,
)
    requires
        call_ensures(worker_error, (CallStep::NewStore, m), a),
        call_ensures(worker_error, (CallStep::InstantiatePre, m), b),
        call_ensures(worker_error, (CallStep::Bind, m), c),
        call_ensures(worker_error, (CallStep::Start, m), d),
        call_ensures(worker_error, (CallStep::StoreCall, m), e),
        call_ensures(worker_error, (CallStep::Call, m), f),
    ensures
        a@ == "failed to create worker store: "@ + m@,
        b@ == "failed to instantiate worker: "@ + m@,
        c@ == "failed to bind worker export: "@ + m@,
        d@ == "failed to start worker: "@ + m@,
        e@ == "worker store call failed: "@ + m@,
        f@ == "worker call failed: "@ + m@,
{
}

/// What failed in calling an observer is told by its step.
pub proof fn failed_observers_are_told(
    m: &str,
    a: String,
    b: String,
    c: String,
    d: String,
    e: String,
    f: String,
)
    requires
        call_ensures(observer_error, (CallStep::NewStore, m), a),
        call_ensures(observer_error, (CallStep::InstantiatePre, m), b),
        call_ensures(observer_error, (CallStep::Bind, m), c),
        call_ensures(observer_error, (CallStep::Start, m), d),
        call_ensures(observer_error, (CallStep::StoreCall, m), e),
        call_ensures(observer_error, (CallStep::Call, m), f),
    ensures
        a@ == "failed to create observer store"@,
        b@ == "failed to instantiate observer"@,
        c@ == "failed to bind observer: "@ + m@,
        d@ == "failed to start observer: "@ + m@,
        e@ == "observer store call failed: "@ + m@,
        f@ == "observer handler failed: "@ + m@,
{
}

/// The settings of an interface go before those of the component.
pub proof fn interfaces_override_components(
    interfaces: &Vec<WitInterface>,
    local: &Config,
    r: Option<Config>,
    key: Seq<char>,
)
    requires
        call_ensures(bind_config, (true, interfaces, local), r),
        first_of_package(interfaces@, "custom"@, "task-queue"@) is Some,
    ensures
        r is Some,
        ({
            let own = first_of_package(interfaces@, "custom"@, "task-queue"@)->0.config@;
            &&& own.contains_key(key) ==> setting(r->0@, key) == setting(own, key)
            &&& !own.contains_key(key) ==> setting(r->0@, key) == setting(local@, key)
        }),
{
}

/// A payload within the limit goes to the component's own queue, and one beyond it is refused.
pub proof fn payloads_go_to_their_queue(
    p: TaskQueuePlugin,
    id: &str,
    payload: &Vec<u8>,
    limits: &QueueLimits,
    r: Result<String, String>,
)
    requires
        call_ensures(TaskQueuePlugin::submit, (&p, id, payload, limits), r),
    ensures
        match r {
            Ok(q) => p.tracker@.contains_key(id@) && q@ == p.tracker@[id@].data.queue@
                && p.queues@.contains_key(q@) && payload@.len() <= limits.payload_max_bytes,
            Err(e) => if !p.tracker@.contains_key(id@) {
                e@ == "component not tracked"@
            } else if !p.queues@.contains_key(p.tracker@[id@].data.queue@) {
                e@ == "queue not ready"@
            } else {
                payload@.len() > limits.payload_max_bytes && e@ == "payload exceeds "@ + decimal(
                    limits.payload_max_bytes as nat,
                ) + " bytes"@
            },
        },
{
}

/// A worker asks whether its task is to stop: it is where that was requested.
pub proof fn workers_see_a_request_to_stop(p: TaskQueuePlugin, id: &str, meta: Option<TaskMeta>, r: bool)
    requires
        call_ensures(TaskQueuePlugin::is_cancelled, (&p, id, &meta), r),
    ensures
        r ==> meta is Some && meta->0.cancel_requested,
        meta is Some && meta->0.cancel_requested && p.tracker@.contains_key(id@) && p.queues@.contains_key(
            p.tracker@[id@].data.queue@,
        ) ==> r,
{
}

/// A task that runs has its attempt, its start, and its deadline that much later.
pub proof fn running_tasks_have_a_deadline(meta: &mut TaskMeta, attempt: u32, now: u64, limit: u64)
    requires
        now + limit <= u64::MAX,
        call_ensures(mark_running, (meta, attempt, now, limit), ()),
    ensures
        final(meta).state is Running,
        final(meta).attempt == attempt,
        final(meta).dispatched_at_ms == Some(now),
        final(meta).deadline_ms - now == limit,
        final(meta).id@ == old(meta).id@,
        final(meta).cancel_requested == old(meta).cancel_requested,
        final(meta).attempts@ == old(meta).attempts@,
{
}

/// A failed attempt is recorded behind those before it, and observers are told the same.
pub proof fn failures_are_recorded_as_they_are_told(
    meta: &mut TaskMeta,
    id: &str,
    attempt: u32,
    source: AttemptErrorSource,
    error: &str,
    started: u64,
    failed: u64,
    duration: u64,
    r: CallbackEvent,
)
    requires
        call_ensures(
            record_attempt_failure,
            (meta, id, attempt, source, error, started, failed, duration),
            r,
        ),
    ensures
        final(meta).attempts@.len() == old(meta).attempts@.len() + 1,
        final(meta).attempts@.drop_last() == old(meta).attempts@,
        match r {
            CallbackEvent::AttemptFailed { event } => {
                let f = final(meta).attempts@.last();
                &&& event.id@ == id@
                &&& f.attempt == attempt && event.attempt == attempt
                &&& f.error@ == error@ && event.error@ == error@
                &&& source is Guest ==> f.source@ == "guest"@ && event.source is Guest
                &&& source is System ==> f.source@ == "system"@ && event.source is System
                &&& f.started_at_ms == Some(started) && event.started_at_ms == Some(started)
                &&& f.failed_at_ms == Some(failed) && event.failed_at_ms == Some(failed)
                &&& f.duration_ms == Some(duration) && event.duration_ms == Some(duration)
            },
            _ => false,
        },
        final(meta).state == old(meta).state && final(meta).attempt == old(meta).attempt,
{
}

/// A task that ends has its state, its end and its result; what is archived and what observers are
/// told agree.
pub proof fn results_are_archived_as_they_are_told(
    meta: &mut TaskMeta,
    id: &str,
    attempt: u32,
    state: TaskState,
    output: Option<Vec<u8>>,
    error: Option<String>,
    now: u64,
    version: u32,
    r: (TaskResultEvent, CallbackEvent),
)
    requires
        status_of(state) is Some,
        call_ensures(complete_task, (meta, id, attempt, state, output, error, now, version), r),
    ensures
        final(meta).state == state,
        final(meta).completed_at_ms == Some(now),
        r.0.completed_at_ms == Some(now) && r.0.schema_version == version,
        r.0.id@ == id@ && r.0.attempt == attempt && r.0.error == error,
        output is Some ==> opt_view(r.0.output_base64) == Some(base64_text(output->0@)),
        output is None ==> r.0.output_base64 is None,
        match r.1 {
            CallbackEvent::Complete { result } => {
                &&& result.id@ == id@ && result.attempt == attempt
                &&& result.status == r.0.status
                &&& result.output == output
                &&& result.error == error
            },
            _ => false,
        },
        state is Succeeded <==> r.0.status is Succeeded,
        state is Failed <==> r.0.status is Failed,
        state is Cancelled <==> r.0.status is Cancelled,
        state is ExecutionTimeout <==> r.0.status is ExecutionTimeout,
        state is MaxRetriesExceeded <==> r.0.status is MaxRetriesExceeded,
{
}

/// A task that has ended cannot be cancelled; one that waits is cancelled at once, and one that runs
/// is asked to stop.
pub proof fn waiting_tasks_are_cancelled_at_once(meta: &mut TaskMeta, r: Result<bool, String>)
    requires
        call_ensures(request_cancel, (meta,), r),
    ensures
        old(meta).state is Queued ==> r == Ok::<bool, String>(true) && final(meta).state is Cancelled
            && final(meta).cancel_requested,
        old(meta).state is Running || old(meta).state is DispatchTimeoutPending ==> r == Ok::<
            bool,
            String,
        >(false) && final(meta).state == old(meta).state && final(meta).cancel_requested,
        !(old(meta).state is Queued || old(meta).state is Running || old(meta).state
            is DispatchTimeoutPending) ==> r is Err && r->Err_0@ == "task already completed"@
            && *final(meta) == *old(meta),
{
}

/// A heartbeat that is taken is told to the observer of the queue, and the time of it is kept; one
/// that is refused changes nothing.
pub proof fn heartbeats_are_told(
    p: &mut TaskQueuePlugin,
    id: &str,
    task: &str,
    info: &str,
    now: u128,
    limits: &QueueLimits,
    r: Result<Option<(String, CallbackEvent)>, String>,
)
    requires
        call_ensures(TaskQueuePlugin::send_heartbeat, (p, id, task, info, now, limits), r),
    ensures
        match r {
            Ok(Some((to, event))) => {
                &&& old(p).tracker@.contains_key(id@)
                &&& component_of(old(p).tracker.pairs(), old(p).tracker@[id@].data.queue@) == Some(to@)
                &&& match event {
                    CallbackEvent::Heartbeat { id: i, info: t } => i@ == task@ && t@ == info@,
                    _ => false,
                }
                &&& lookup(final(p).heartbeats@, task@) == Some(now)
                &&& encode_utf8(info@).len() <= limits.heartbeat_max_info_bytes
                &&& old(p).heartbeats@.contains_key(task@) ==> now >= old(p).heartbeats@[task@]
                    + limits.heartbeat_min_interval_ms * 1_000_000
            },
            _ => final(p).heartbeats@ == old(p).heartbeats@,
        },
{
}

} // verus!
