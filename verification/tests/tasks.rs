use host_plugins::table::{Config, Table};
use host_plugins::task_queue::{attempt_of, bind_config, complete_task, duration_since, execute_task, guest_task_info, mark_running, observer_error, parse_control_event, record_attempt_failure, request_cancel, status_variant, task_id_of, task_subject, to_observer_attempt_failure, to_observer_task_result, update_error, worker_error, AttemptErrorSource, AttemptFailure, CallStep, CallbackEvent, ObserverErrorSource, ObserverTaskStatus, QueueLimits, TaskMeta, TaskQueuePlugin, TaskResult, TaskState, TaskStatus, TaskStep, WorkerOutcome};
use host_plugins::world::{one, WitInterface};

fn meta(state: TaskState) -> TaskMeta {
    TaskMeta {
        id: "t1".to_string(),
        state,
        attempt: 0,
        attempts: Vec::new(),
        created_at_ms: 10,
        dispatched_at_ms: None,
        completed_at_ms: None,
        deadline_ms: 0,
        cancel_requested: false,
    }
}

#[test]
fn status_names_are_stable() {
    assert_eq!(TaskStatus::Succeeded.as_str(), "succeeded");
    assert_eq!(TaskStatus::DispatchTimeout.as_str(), "dispatch-timeout");
}

#[test]
fn status_variants_are_stable() {
    assert!(matches!(status_variant(&TaskState::DispatchTimeoutPending), TaskStatus::DispatchTimeout));
    assert!(matches!(status_variant(&TaskState::Cancelled), TaskStatus::Cancelled));
}

#[test]
fn results_are_converted_for_observers() {
    let r = to_observer_task_result(TaskResult {
        id: "t".to_string(),
        status: TaskStatus::MaxRetriesExceeded,
        attempt: 3,
        output: Some(vec![1]),
        error: None,
    });
    assert_eq!((r.id.as_str(), r.status, r.attempt), ("t", ObserverTaskStatus::MaxRetriesExceeded, 3));
    let f = to_observer_attempt_failure(AttemptFailure {
        id: "t".to_string(),
        attempt: 1,
        source: AttemptErrorSource::System,
        error: "e".to_string(),
        started_at_ms: Some(1),
        failed_at_ms: Some(3),
        duration_ms: Some(2),
    });
    assert_eq!((f.source, f.duration_ms), (ObserverErrorSource::System, Some(2)));
}

#[test]
fn control_events_are_read() {
    let e = parse_control_event(br#"{"type":"complete","id":"t","attempt":4294967298,"status":"execution-timeout","output":"AP8=","error":"x"}"#);
    match e {
        Some(CallbackEvent::Complete { result }) => {
            assert_eq!(result.status, TaskStatus::ExecutionTimeout);
            assert_eq!(result.attempt, 2);
            assert_eq!(result.output, Some(vec![0, 255]));
            assert_eq!(result.error.as_deref(), Some("x"));
        }
        _ => panic!("expected a completion"),
    }
    match parse_control_event(br#"{"type":"complete","id":"t","output":"***"}"#) {
        Some(CallbackEvent::Complete { result }) => {
            assert_eq!((result.status, result.attempt), (TaskStatus::Failed, 1));
            assert!(result.output.is_none());
        }
        _ => panic!("expected a completion"),
    }
    match parse_control_event(br#"{"type":"attempt_failed","id":"t","source":"system","attempt":3}"#) {
        Some(CallbackEvent::AttemptFailed { event }) => {
            assert_eq!((event.source, event.attempt), (AttemptErrorSource::System, 3));
            assert_eq!(event.error, "");
        }
        _ => panic!("expected a failure"),
    }
    assert!(matches!(
        parse_control_event(br#"{"type":"heartbeat","id":"t","info":"50%"}"#),
        Some(CallbackEvent::Heartbeat { id, info }) if id == "t" && info == "50%"
    ));
    assert!(parse_control_event(br#"{"type":"other","id":"t"}"#).is_none());
    assert!(parse_control_event(br#"{"type":"heartbeat"}"#).is_none());
    assert!(parse_control_event(b"\xff\xfe").is_none());
    assert!(parse_control_event(b"").is_none());
}

#[test]
fn every_status_reads_back() {
    for s in [
        TaskStatus::Succeeded,
        TaskStatus::Failed,
        TaskStatus::DispatchTimeout,
        TaskStatus::ExecutionTimeout,
        TaskStatus::Cancelled,
        TaskStatus::MaxRetriesExceeded,
    ] {
        let text = format!("{{\"type\":\"complete\",\"id\":\"t\",\"status\":\"{}\"}}", s.as_str());
        assert!(matches!(parse_control_event(text.as_bytes()), Some(CallbackEvent::Complete { result }) if result.status == s));
    }
}

#[test]
fn deliveries_name_task_and_attempt() {
    assert_eq!(task_id_of("queue.tasks.0198"), "0198");
    assert_eq!(task_id_of("plain"), "plain");
    assert_eq!(task_id_of("ends."), "");
    assert_eq!(attempt_of(Some(3)), 3);
    assert_eq!(attempt_of(Some(-5)), 1);
    assert_eq!(attempt_of(Some(0x1_0000_0002)), 2);
    assert_eq!(attempt_of(None), 1);
    assert_eq!(task_subject("q", "t"), "q.tasks.t");
    assert_eq!((duration_since(9, 4), duration_since(4, 9)), (5, 0));
}

#[test]
fn attempts_are_settled() {
    let steps = execute_task(WorkerOutcome::Finished(Some(vec![7])), 1, 3);
    assert!(matches!(&steps[0], TaskStep::Complete { state: TaskState::Succeeded, output: Some(o), reason: None } if *o == vec![7]));
    assert!(matches!(steps[1], TaskStep::Ack));
    let steps = execute_task(WorkerOutcome::Failed("e".to_string()), 2, 3);
    assert_eq!(steps.len(), 2);
    assert!(matches!(&steps[0], TaskStep::RecordFailure { source: AttemptErrorSource::Guest, error } if error == "e"));
    assert!(matches!(steps[1], TaskStep::Nak { attempt: 2 }));
    let steps = execute_task(WorkerOutcome::NoWorker, 3, 3);
    assert_eq!(steps.len(), 4);
    assert!(matches!(&steps[0], TaskStep::RecordFailure { source: AttemptErrorSource::System, error } if error == "no worker component bound to queue"));
    assert!(matches!(&steps[2], TaskStep::Complete { state: TaskState::MaxRetriesExceeded, reason: Some(r), .. } if r == "max retries exceeded"));
    assert!(matches!(steps[3], TaskStep::Term));
    assert!(matches!(execute_task(WorkerOutcome::Failed("e".to_string()), 1, 0)[2], TaskStep::Term));
}

#[test]
fn tasks_are_marked_failed_and_completed() {
    let mut m = meta(TaskState::Queued);
    mark_running(&mut m, 2, 100, 50);
    assert_eq!((m.state, m.deadline_ms, m.dispatched_at_ms), (TaskState::Running, 150, Some(100)));
    assert_eq!(guest_task_info(&m, TaskStatus::Failed).attempt, Some(1));
    let e = record_attempt_failure(&mut m, "t1", 2, AttemptErrorSource::Guest, "boom", 100, 120, 20);
    assert_eq!((m.attempts.len(), m.attempts[0].source.as_str()), (1, "guest"));
    assert!(matches!(e, CallbackEvent::AttemptFailed { event } if event.failed_at_ms == Some(120)));
    let (archived, told) = complete_task(&mut m, "t1", 2, TaskState::Succeeded, Some(vec![0, 255]), None, 130, 1);
    assert_eq!(archived.output_base64.as_deref(), Some("AP8="));
    assert!(archived.output.is_none());
    assert_eq!((m.state, m.completed_at_ms), (TaskState::Succeeded, Some(130)));
    assert!(matches!(told, CallbackEvent::Complete { result } if result.output == Some(vec![0, 255])));
    assert_eq!(guest_task_info(&meta(TaskState::Queued), TaskStatus::Failed).attempt, None);
}

#[test]
fn cancelling_depends_on_the_state() {
    let mut q = meta(TaskState::Queued);
    assert_eq!(request_cancel(&mut q), Ok(true));
    assert_eq!((q.state, q.cancel_requested), (TaskState::Cancelled, true));
    assert_eq!(request_cancel(&mut q), Err("task already completed".to_string()));
    let mut r = meta(TaskState::Running);
    assert_eq!(request_cancel(&mut r), Ok(false));
    assert_eq!((r.state, r.cancel_requested), (TaskState::Running, true));
    let mut d = meta(TaskState::Succeeded);
    assert!(request_cancel(&mut d).is_err());
    assert!(!d.cancel_requested);
}

fn limits() -> QueueLimits {
    QueueLimits { payload_max_bytes: 4, heartbeat_max_info_bytes: 6, heartbeat_min_interval_ms: 1000 }
}

fn plugin() -> TaskQueuePlugin {
    let mut p = TaskQueuePlugin::new();
    let mut c: Config = Table::new();
    c.insert("external-worker".to_string(), "true".to_string());
    p.on_workload_item_bind("c", "w", "agent-task", &c, 3);
    p
}

#[test]
fn queues_are_started_for_components() {
    let mut p = plugin();
    let s = p.on_workload_resolved("w", "c").unwrap();
    assert!(!s.consume);
    assert_eq!((s.queue.as_str(), s.events_subject.as_str(), s.cancel_token), ("agent-task", "agent-task.events", 3));
    assert!(p.on_workload_resolved("w", "zz").is_none());
    p.on_workload_item_bind("d", "w", "other", &Table::new(), 4);
    assert!(p.on_workload_resolved("w", "d").unwrap().consume);
    assert_eq!(p.find_worker_component("agent-task"), "c");
    assert_eq!(p.find_worker_component("none"), "");
    assert_eq!(p.worker_for("agent-task").as_deref(), Some("c"));
    assert!(p.worker_for("none").is_none());
    assert!(plugin().worker_for("agent-task").is_none());
    assert_eq!(p.find_producer_component("other").as_deref(), Some("d"));
    let mut tokens = p.on_workload_unbind("w");
    tokens.sort();
    assert_eq!(tokens, vec![3, 4]);
}

#[test]
fn tasks_are_submitted_to_ready_queues() {
    let mut p = plugin();
    assert_eq!(p.submit("zz", &vec![], &limits()).err().unwrap(), "component not tracked");
    assert_eq!(p.submit("c", &vec![], &limits()).err().unwrap(), "queue not ready");
    assert!(!p.is_cancelled("c", &None));
    p.queue_ready("agent-task");
    assert_eq!(p.submit("c", &vec![1, 2, 3, 4], &limits()).ok().unwrap(), "agent-task");
    assert_eq!(p.submit("c", &vec![1, 2, 3, 4, 5], &limits()).err().unwrap(), "payload exceeds 4 bytes");
    let mut m = meta(TaskState::Running);
    assert!(!p.is_cancelled("c", &Some(meta(TaskState::Running))));
    m.cancel_requested = true;
    assert!(p.is_cancelled("c", &Some(m)));
}

#[test]
fn heartbeats_keep_their_distance() {
    let mut p = plugin();
    let ms = 1_000_000u128;
    assert_eq!(p.send_heartbeat("zz", "t", "i", 0, &limits()).err().unwrap(), "component not tracked");
    assert_eq!(p.send_heartbeat("c", "t", "größer", 0, &limits()).err().unwrap(), "info exceeds 6 bytes");
    let (to, e) = p.send_heartbeat("c", "t", "50%", 5000 * ms, &limits()).ok().unwrap().unwrap();
    assert_eq!(to, "c");
    assert!(matches!(e, CallbackEvent::Heartbeat { id, info } if id == "t" && info == "50%"));
    assert_eq!(p.send_heartbeat("c", "t", "i", 5999 * ms, &limits()).err().unwrap(), "heartbeat exceeds minimum interval of 1000 ms");
    assert!(p.send_heartbeat("c", "t", "i", 100 * ms, &limits()).is_err());
    assert!(p.send_heartbeat("c", "u", "i", 5999 * ms, &limits()).is_ok());
    assert!(p.send_heartbeat("c", "t", "i", 6000 * ms, &limits()).is_ok());
}

#[test]
fn failed_calls_are_described() {
    assert_eq!(worker_error(CallStep::NewStore, "e"), "failed to create worker store: e");
    assert_eq!(update_error("e"), "failed to update task metadata: e");
    assert_eq!(worker_error(CallStep::Call, "e"), "worker call failed: e");
    assert_eq!(observer_error(CallStep::NewStore, "e"), "failed to create observer store");
    assert_eq!(observer_error(CallStep::Bind, "e"), "failed to bind observer: e");
}

#[test]
fn producers_ask_for_their_tasks() {
    let mut p = plugin();
    let known = || Some((meta(TaskState::Running), TaskStatus::Failed));
    assert_eq!(p.query_status("zz", &known()).err().unwrap(), "component not tracked");
    assert!(matches!(p.query_status("c", &known()), Ok(None)));
    assert_eq!(p.cancel_task("c", "t", Ok(meta(TaskState::Queued))).err().unwrap(), "queue not ready");
    p.queue_ready("agent-task");
    assert!(matches!(p.query_status("c", &known()), Ok(Some(i)) if i.id == "t1"));
    assert!(matches!(p.query_status("c", &None), Ok(None)));
    assert_eq!(p.cancel_task("c", "t", Err("gone".to_string())).err().unwrap(), "task not found: gone");
    assert_eq!(p.cancel_task("c", "t", Ok(meta(TaskState::Failed))).err().unwrap(), "task already completed");
    let (m, subject) = p.cancel_task("c", "t", Ok(meta(TaskState::Queued))).ok().unwrap();
    assert_eq!((m.state, subject.as_deref()), (TaskState::Cancelled, Some("agent-task.tasks.t")));
    let (m, subject) = p.cancel_task("c", "t", Ok(meta(TaskState::Running))).ok().unwrap();
    assert_eq!((m.state, subject), (TaskState::Running, None));
}

#[test]
fn the_interface_overrides_the_component() {
    let mut i = WitInterface::of("custom", "task-queue", one("producer"), "0.1.0");
    i.config.insert("queue".to_string(), "b".to_string());
    let mut local: Config = Table::new();
    local.insert("queue".to_string(), "a".to_string());
    local.insert("x".to_string(), "1".to_string());
    let c = bind_config(true, &vec![i], &local).unwrap();
    assert_eq!((c.get("queue").unwrap().as_str(), c.get("x").unwrap().as_str()), ("b", "1"));
    assert!(bind_config(true, &vec![], &local).is_none());
    let j = WitInterface::of("custom", "task-queue", one("producer"), "0.1.0");
    assert!(bind_config(false, &vec![j], &local).is_none());
}
