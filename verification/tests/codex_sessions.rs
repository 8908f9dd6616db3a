use host_plugins::codex::{approval_request, convert_event, drain_channel, extract_config, needed_defaults, resolve_codex_config, start_error, usage_in_range, Codex, CodexError, CodexSessionState, ComponentData, ExecStreamEvent, ExecStreamHandle, ExecutePlan, SessionKeys, StartStep, WitCodexConfig};
use host_plugins::codex_process::{detect_platform_tarball_url, download_error, is_program_path, parse_jsonl_line, program_among, program_in_archive, spawn_codex_exec, CodexJsonlEvent, CodexUsage, DownloadStep, TokenUsageAccum};
use host_plugins::json::{get_text, read_value};
use host_plugins::table::{Config, Table};
use host_plugins::world::WitInterface;

fn config(entries: Vec<(&str, &str)>) -> Config {
    let mut c: Config = Table::new();
    for (k, v) in entries {
        c.insert(k.to_string(), v.to_string());
    }
    c
}

fn usage(i: u64, c: u64, o: u64) -> CodexJsonlEvent {
    CodexJsonlEvent::TurnCompleted {
        usage: CodexUsage { input_tokens: i, cached_input_tokens: c, output_tokens: o },
    }
}

fn started(id: &str) -> CodexJsonlEvent {
    CodexJsonlEvent::ThreadStarted { thread_id: id.to_string() }
}

#[test]
fn test_detect_platform_tarball_url() {
    let url = detect_platform_tarball_url("linux", "x86_64");
    assert!(url.is_some());
    let url = url.unwrap();
    assert!(url.starts_with("https://github.com/openai/codex/releases/"));
    assert!(url.ends_with(".tar.gz"));
    assert_eq!(
        detect_platform_tarball_url("macos", "aarch64").unwrap(),
        "https://github.com/openai/codex/releases/latest/download/codex-aarch64-apple-darwin.tar.gz"
    );
    assert!(detect_platform_tarball_url("windows", "x86_64").is_none());
}

#[test]
fn test_parse_thread_started() {
    let json = r#"{"type":"thread.started","thread_id":"0199a213-81c0-7800-8aa1-bbab2a035a53"}"#;
    match parse_jsonl_line(json).unwrap() {
        CodexJsonlEvent::ThreadStarted { thread_id } => {
            assert_eq!(thread_id, "0199a213-81c0-7800-8aa1-bbab2a035a53");
        }
        _ => panic!("expected ThreadStarted"),
    }
}

#[test]
fn test_parse_turn_started() {
    let event = parse_jsonl_line(r#"{"type":"turn.started"}"#).unwrap();
    assert!(matches!(event, CodexJsonlEvent::TurnStarted));
}

#[test]
fn test_parse_item_started() {
    let json = r#"{"type":"item.started","item":{"id":"item_1","type":"command_execution","command":"bash -lc ls","status":"in_progress"}}"#;
    match parse_jsonl_line(json).unwrap() {
        CodexJsonlEvent::ItemStarted { item } => {
            assert_eq!(get_text(&read_value(&item), "id").unwrap(), "item_1");
        }
        _ => panic!("expected ItemStarted"),
    }
}

#[test]
fn test_parse_item_completed() {
    let json = r#"{"type":"item.completed","item":{"id":"item_3","type":"agent_message","text":"Repo contains docs, sdk, and examples directories."}}"#;
    match parse_jsonl_line(json).unwrap() {
        CodexJsonlEvent::ItemCompleted { item } => {
            let j = read_value(&item);
            assert_eq!(get_text(&j, "type").unwrap(), "agent_message");
            assert_eq!(
                get_text(&j, "text").unwrap(),
                "Repo contains docs, sdk, and examples directories."
            );
        }
        _ => panic!("expected ItemCompleted"),
    }
}

#[test]
fn test_parse_turn_completed() {
    let json = r#"{"type":"turn.completed","usage":{"input_tokens":24763,"cached_input_tokens":24448,"output_tokens":122}}"#;
    match parse_jsonl_line(json).unwrap() {
        CodexJsonlEvent::TurnCompleted { usage } => {
            assert_eq!(usage.input_tokens, 24763);
            assert_eq!(usage.cached_input_tokens, 24448);
            assert_eq!(usage.output_tokens, 122);
        }
        _ => panic!("expected TurnCompleted"),
    }
}

#[test]
fn test_token_usage_accum() {
    let mut accum = TokenUsageAccum::default();
    accum.add(&CodexUsage { input_tokens: 100, cached_input_tokens: 50, output_tokens: 200 });
    accum.add(&CodexUsage { input_tokens: 300, cached_input_tokens: 0, output_tokens: 400 });
    assert_eq!(accum.input_tokens, 400);
    assert_eq!(accum.cached_input_tokens, 50);
    assert_eq!(accum.output_tokens, 600);
}

#[test]
fn test_parse_error_event() {
    let json = r#"{"type":"error","message":"Missing environment variable: `GLM_API_TOKEN`."}"#;
    match parse_jsonl_line(json).unwrap() {
        CodexJsonlEvent::Error { message } => assert!(message.contains("GLM_API_TOKEN")),
        _ => panic!("expected Error"),
    }
}

#[test]
fn test_parse_turn_failed() {
    let json = r#"{"type":"turn.failed","error":{"message":"Missing environment variable: `GLM_API_TOKEN`."}}"#;
    match parse_jsonl_line(json).unwrap() {
        CodexJsonlEvent::TurnFailed { error } => {
            assert_eq!(
                get_text(&read_value(&error), "message").as_deref(),
                Some("Missing environment variable: `GLM_API_TOKEN`.")
            );
        }
        _ => panic!("expected TurnFailed"),
    }
}

#[test]
fn lines_without_an_event_are_passed_over() {
    assert!(parse_jsonl_line("").is_none());
    assert!(parse_jsonl_line("plain text").is_none());
    assert!(parse_jsonl_line(r#"{"type":"other"}"#).is_none());
    assert!(parse_jsonl_line(r#"{"type":"thread.started"}"#).is_none());
    assert!(parse_jsonl_line(r#"{"type":"turn.completed","usage":{"input_tokens":1}}"#).is_none());
    assert!(matches!(
        parse_jsonl_line(r#"{"type":"turn.completed","usage":{"input_tokens":1,"output_tokens":2}}"#),
        Some(CodexJsonlEvent::TurnCompleted { usage }) if usage.cached_input_tokens == 0
    ));
    assert!(matches!(
        parse_jsonl_line(r#"{"type":"exec.approval.request","item":{"id":"a"}}"#),
        Some(CodexJsonlEvent::ExecApprovalRequest { .. })
    ));
}

#[test]
fn test_extract_config_missing_api_token() {
    let result = extract_config(&config(vec![("model", "gpt-5.4")]), "bin", "dir");
    assert!(result.is_err());
    assert!(result.err().unwrap().contains("api_token"));
}

#[test]
fn test_extract_config_missing_model() {
    let result = extract_config(&config(vec![("api_token", "sk-test")]), "bin", "dir");
    assert!(result.is_err());
    assert!(result.err().unwrap().contains("model"));
}

#[test]
fn lib_test_extract_config_success() {
    let cfg = extract_config(&config(vec![("api_token", "sk-test"), ("model", "gpt-5.4")]), "bin", "dir")
        .ok()
        .unwrap();
    assert_eq!(cfg.api_token, "sk-test");
    assert_eq!(cfg.model, "gpt-5.4");
    assert!(cfg.base_url.is_none());
    assert_eq!(cfg.binary_path, "bin");
    assert_eq!(cfg.project_dir, "dir");
}

#[test]
fn test_extract_config_with_base_url() {
    let cfg = extract_config(
        &config(vec![
            ("api_token", "sk-test"),
            ("model", "gpt-5.4"),
            ("base_url", "https://my-llm.example.com/v1"),
        ]),
        "bin",
        "dir",
    )
    .ok()
    .unwrap();
    assert_eq!(cfg.base_url.unwrap(), "https://my-llm.example.com/v1");
}

#[test]
fn passed_settings_decide_a_run() {
    let c = config(vec![("api_token", "sk-a"), ("model", "m-a"), ("project_dir", "/p")]);
    let d = WitCodexConfig {
        api_token: "sk-b".to_string(),
        model: "m-b".to_string(),
        base_url: Some("u".to_string()),
        codex_binary_path: None,
        project_dir: None,
    };
    let cfg = resolve_codex_config(Some(d), &c, "bin", "dir").ok().unwrap();
    assert_eq!((cfg.api_token.as_str(), cfg.model.as_str()), ("sk-b", "m-b"));
    assert_eq!((cfg.binary_path.as_str(), cfg.project_dir.as_str()), ("bin", "/p"));
    let spawn = cfg.spawn_config();
    let plan = spawn_codex_exec(&spawn, "do it", &Some("sid".to_string()));
    assert_eq!(
        plan.args,
        vec!["exec", "resume", "sid", "--json", "--model", "m-b", "--skip-git-repo-check", "--color", "never", "do it"]
    );
    assert_eq!(plan.env.len(), 2);
    assert_eq!(plan.env[1], ("OPENAI_BASE_URL".to_string(), "u".to_string()));
    assert_eq!(spawn_codex_exec(&spawn, "p", &None).args[1], "--json");
    let none = needed_defaults(&None, &config(vec![]));
    assert!(none.binary && none.project_dir);
    let some = needed_defaults(&None, &config(vec![("codex_binary_path", "/b")]));
    assert!(!some.binary && some.project_dir);
    assert!(resolve_codex_config(None, &config(vec![("api_token", "")]), "b", "d").err().unwrap().contains("api_token"));
    assert!(resolve_codex_config(None, &config(vec![("api_token", "x")]), "b", "d").err().unwrap().contains("model"));
}

#[test]
fn test_convert_thread_started() {
    match convert_event(started("abc-123")) {
        ExecStreamEvent::Done(id) => assert_eq!(id, "abc-123"),
        _ => panic!("expected Done variant"),
    }
}

#[test]
fn test_convert_turn_completed() {
    match convert_event(usage(100, 50, 200)) {
        ExecStreamEvent::Usage(usage) => {
            assert_eq!(usage.input_tokens, 100);
            assert_eq!(usage.cached_input_tokens, 50);
            assert_eq!(usage.output_tokens, 200);
        }
        _ => panic!("expected Usage variant"),
    }
}

#[test]
fn items_and_failures_are_converted() {
    let item = r#"{"command":"ls","id":"i1","status":"done","text":7,"type":"command_execution"}"#;
    match convert_event(CodexJsonlEvent::ItemCompleted { item: item.to_string() }) {
        ExecStreamEvent::Event(e) => {
            assert_eq!(e.event_type, "item.completed");
            assert_eq!(e.item_id.as_deref(), Some("i1"));
            assert_eq!(e.command.as_deref(), Some("ls"));
            assert!(e.text_content.is_none());
            assert_eq!(e.raw_json, item);
        }
        _ => panic!("expected an event"),
    }
    match convert_event(CodexJsonlEvent::TurnFailed { error: "{}".to_string() }) {
        ExecStreamEvent::Error(m) => assert_eq!(m, "unknown error"),
        _ => panic!("expected an error"),
    }
    let a = approval_request(&read_value(r#"{"id":"x","command":["a","b"]}"#));
    assert_eq!((a.item_id.as_str(), a.command.as_str()), ("x", "[\"a\",\"b\"]"));
    let b = approval_request(&read_value(r#"{"id":"x","call_id":3}"#));
    assert_eq!((b.item_id.as_str(), b.command.as_str()), ("unknown", ""));
}

#[test]
fn test_new_session_key_unique() {
    let mut keys = SessionKeys::new();
    let key1 = keys.new_session_key();
    let key2 = keys.new_session_key();
    assert_ne!(key1, key2);
    assert!(key1.chars().all(|c| c.is_ascii_digit()) && key1.len() > 15);
}

#[test]
fn session_keys_are_decimal_times() {
    let mut keys = SessionKeys::new();
    assert_eq!(keys.session_key_at(1_700_000_000_000_000_000), "1700000000000000000");
}

#[test]
fn session_keys_differ_when_the_clock_stands_still() {
    let mut keys = SessionKeys::default();
    assert_eq!(keys.session_key_at(0), "0");
    assert_eq!(keys.session_key_at(50), "50");
    assert_eq!(keys.session_key_at(50), "51");
    assert_eq!(keys.session_key_at(7), "52");
    assert_eq!(keys.session_key_at(60), "60");
    assert_eq!(keys.next, 61);
}

fn state() -> CodexSessionState {
    CodexSessionState {
        pending_events: Vec::new(),
        ended: false,
        usage: TokenUsageAccum::default(),
        session_id: None,
        has_stdin: true,
        auto_approve: true,
        pending_approval_item_id: None,
    }
}

#[test]
fn events_change_a_session() {
    let mut s = state();
    let events = vec![
        started("t1"),
        CodexJsonlEvent::ExecApprovalRequest { item: r#"{"call_id":"c9"}"#.to_string() },
        usage(1, 2, 3),
    ];
    assert!(usage_in_range(&s, &events));
    drain_channel(&mut s, events);
    assert_eq!(s.session_id.as_deref(), Some("t1"));
    assert_eq!(s.pending_approval_item_id.as_deref(), Some("c9"));
    assert!(s.ended);
    assert_eq!(s.pending_events.len(), 3);
    assert_eq!(s.usage.output_tokens, 3);
    assert!(!usage_in_range(&s, &vec![usage(u64::MAX, 0, 0)]));
}

#[test]
fn sessions_are_created_resumed_and_deleted() {
    let mut d = ComponentData::bound(7, config(vec![]));
    assert!(matches!(d.execute_plan("ctx"), ExecutePlan::Create));
    d.session_created("k1", "ctx", "100");
    d.set_current("ctx", "k1");
    assert!(matches!(d.execute_plan("ctx"), ExecutePlan::Create));
    let mut h = ExecStreamHandle { session_key: "k1".to_string(), ended: false };
    assert!(d.stream_in_range(&h.session_key, &vec![usage(5, 0, 1)]));
    assert!(!d.stream_in_range(&h.session_key, &vec![usage(u64::MAX, 0, 1), usage(1, 0, 0)]));
    assert!(d.stream_in_range("unknown", &vec![usage(u64::MAX, 0, 1), usage(1, 0, 0)]));
    let b = d.next(&mut h, vec![started("t1"), usage(5, 0, 1)]).ok().unwrap();
    assert_eq!(b.events.len(), 2);
    assert!(b.done && h.ended && b.write.is_none());
    assert!(d.next(&mut h, vec![usage(1, 1, 1)]).ok().unwrap().events.is_empty());
    assert!(matches!(d.execute_plan("ctx"), ExecutePlan::Resume(s) if s == "t1"));
    assert_eq!(d.get_usage("t1").ok().unwrap().input_tokens, 5);
    let list = d.list_sessions();
    assert_eq!(list.len(), 1);
    assert_eq!((list[0].session_id.as_str(), list[0].created_at.as_str()), ("t1", "100"));
    d.session_resumed("t1", "k2");
    assert_eq!(d.get_usage("t1").ok().unwrap().input_tokens, 0);
    assert!(d.change_session("other", "t1").is_ok());
    assert!(d.change_session("other", "nope").is_err());
    assert!(d.delete_session("t1").is_ok());
    match d.get_usage("t1") {
        Err(CodexError::NotFound(m)) => assert_eq!(m, "session 't1' not found"),
        _ => panic!("expected the session to be gone"),
    }
    assert!(d.delete_session("t1").is_err());
    assert!(!d.current_sessions.contains("other"));
    assert!(d.current_sessions.contains("ctx"));
}

#[test]
fn commands_are_approved_by_hand_or_by_themselves() {
    let mut d = ComponentData::bound(7, config(vec![]));
    d.session_resumed("t1", "k1");
    let ask = |id: &str| CodexJsonlEvent::ExecApprovalRequest { item: format!("{{\"id\":\"{}\"}}", id) };
    let mut h = ExecStreamHandle { session_key: "k1".to_string(), ended: false };
    let b = d.next(&mut h, vec![ask("a")]).ok().unwrap();
    assert_eq!(b.write, Some("y\n"));
    match d.approve("t1", "a", true) {
        Err(CodexError::Internal(m)) => assert_eq!(m, "no pending approval request"),
        _ => panic!("expected nothing to approve"),
    }
    assert!(d.set_auto_approve("t1", false).is_ok());
    let b = d.next(&mut h, vec![ask("b")]).ok().unwrap();
    assert!(b.write.is_none());
    match d.approve("t1", "a", true) {
        Err(CodexError::Internal(m)) => assert_eq!(m, "item 'a' does not match pending approval"),
        _ => panic!("expected a mismatch"),
    }
    assert_eq!(d.approve("t1", "b", false).ok().unwrap(), Some("n\n"));
    match d.approval_written("t1", Err("pipe".to_string())) {
        Err(CodexError::ProcessError(m)) => assert_eq!(m, "failed to write approval to stdin: pipe"),
        _ => panic!("expected a failed write"),
    }
    assert_eq!(d.approve("t1", "b", true).ok().unwrap(), Some("y\n"));
    assert!(d.approval_written("t1", Ok(())).is_ok());
    assert!(d.approve("t1", "b", true).is_err());
    assert!(d.approve("t2", "b", true).is_err());
    let mut lost = ExecStreamHandle { session_key: "zz".to_string(), ended: false };
    assert!(matches!(d.next(&mut lost, Vec::new()), Err(CodexError::NotFound(m)) if m == "session not found"));
}

#[test]
fn components_are_bound_with_a_checked_configuration() {
    let mut p = Codex::new();
    let mut i = WitInterface::of("custom", "codex", Vec::new(), "0.1.0");
    assert!(!p.on_workload_item_bind("c", "w", true, &vec![WitInterface::of("custom", "codex", Vec::new(), "0.1.0")], 1));
    i.config.insert("api_token".to_string(), "sk".to_string());
    i.config.insert("model".to_string(), "m".to_string());
    assert!(p.on_workload_item_bind("c", "w", true, &vec![i], 42));
    let o = p.check_out("c", false).ok().unwrap();
    assert!(matches!(p.check_out("c", false), Err(CodexError::NotFound(m)) if m == "component not tracked"));
    assert!(matches!(p.check_out("c", true), Err(CodexError::Internal(_))));
    p.check_in("c", o);
    assert_eq!(p.on_workload_unbind("w"), vec![42]);
    assert!(p.on_workload_unbind("w").is_empty());
}

#[test]
fn starting_reports_the_failed_step() {
    assert!(matches!(start_error(StartStep::EnsureBinary, "x"), CodexError::ProcessError(m) if m == "codex binary not available: x"));
    assert!(matches!(start_error(StartStep::Spawn, "x"), CodexError::ProcessError(m) if m == "failed to spawn codex: x"));
    assert!(matches!(start_error(StartStep::SpawnResume, "x"), CodexError::ProcessError(m) if m == "failed to spawn codex resume: x"));
    assert!(matches!(start_error(StartStep::TakeOutput, "x"), CodexError::ProcessError(m) if m == "codex process has no stdout"));
}

#[test]
fn the_program_is_found_among_paths() {
    for path in ["codex", "codex-x86_64-apple-darwin", "codexd", "a/b/codex", "./codex", "/codex//", "a/codex/.", "a/codex/./"] {
        assert!(is_program_path(&path.as_bytes().to_vec()), "{}", path);
    }
    for path in ["", "code", "xcodex", "codex/x", "codex/..", "/", ".", "codex/../", "Codex", ".codex", "a/..codex"] {
        assert!(!is_program_path(&path.as_bytes().to_vec()), "{}", path);
    }
    assert!(is_program_path(&b"a/codex\xff".to_vec()));
    let path = |p: &str| Some(p.as_bytes().to_vec());
    assert!(matches!(program_among(&vec![path("README"), path("bin/codex"), path("codex"), None]), Ok(1)));
    assert!(matches!(program_among(&vec![path("README"), None, path("codex")]), Err(DownloadStep::ReadEntry)));
    assert!(matches!(program_among(&vec![path("README")]), Err(DownloadStep::Find)));
    assert!(matches!(program_among(&vec![]), Err(DownloadStep::Find)));
}

fn packed(builder: tar::Builder<Vec<u8>>) -> Vec<u8> {
    let raw = builder.into_inner().unwrap();
    let mut zip = flate2::write::GzEncoder::new(Vec::new(), flate2::Compression::default());
    std::io::Write::write_all(&mut zip, &raw).unwrap();
    zip.finish().unwrap()
}

fn add_file(builder: &mut tar::Builder<Vec<u8>>, path: &str, data: &[u8]) {
    let mut header = tar::Header::new_gnu();
    header.set_size(data.len() as u64);
    header.set_mode(0o755);
    header.set_cksum();
    builder.append_data(&mut header, path, data).unwrap();
}

#[test]
fn the_program_is_found_in_an_archive() {
    let long = format!("{}/codex", "d".repeat(150));
    let mut b = tar::Builder::new(Vec::new());
    add_file(&mut b, "README", b"codex");
    add_file(&mut b, &long, b"x");
    add_file(&mut b, "codex", b"y");
    let bytes = packed(b);
    assert!(matches!(program_in_archive(&bytes), Some(Ok(1))));
    let mut b = tar::Builder::new(Vec::new());
    add_file(&mut b, "README", b"codex");
    assert!(matches!(program_in_archive(&packed(b)), Some(Err(DownloadStep::Find))));
    assert!(matches!(program_in_archive(&Vec::new()), Some(Err(DownloadStep::ReadEntry))));
    assert!(matches!(program_in_archive(&b"no archive".to_vec()), Some(Err(DownloadStep::ReadEntry))));
}

#[test]
fn a_broken_archive_is_searched_up_to_the_fault() {
    let noise: Vec<u8> = (0..200_000u32).map(|i| (i.wrapping_mul(2_654_435_761) >> 13) as u8).collect();
    let mut b = tar::Builder::new(Vec::new());
    add_file(&mut b, "README", &noise);
    add_file(&mut b, "codex", b"y");
    let bytes = packed(b);
    assert!(matches!(program_in_archive(&bytes), Some(Ok(1))));
    let half = bytes[..bytes.len() / 2].to_vec();
    assert!(matches!(program_in_archive(&half), Some(Err(DownloadStep::ReadEntry))));
}

#[test]
fn archives_that_move_their_headers_are_not_searched() {
    let mut b = tar::Builder::new(Vec::new());
    b.append_pax_extensions([("size", &b"1"[..])]).unwrap();
    add_file(&mut b, "codex", b"y");
    assert!(program_in_archive(&packed(b)).is_none());
    let mut b = tar::Builder::new(Vec::new());
    b.append_pax_extensions([("path", &b"bin/codex"[..])]).unwrap();
    add_file(&mut b, "x", b"y");
    assert!(matches!(program_in_archive(&packed(b)), Some(Ok(0))));
    let mut header = tar::Header::new_gnu();
    header.set_path("codex").unwrap();
    header.set_size(u64::MAX - 1023);
    header.set_entry_type(tar::EntryType::GNUSparse);
    header.as_gnu_mut().unwrap().isextended = [1];
    header.set_cksum();
    let mut b = tar::Builder::new(Vec::new());
    b.append(&header, &[0u8; 512][..]).unwrap();
    assert!(program_in_archive(&packed(b)).is_none());
}

#[test]
fn failed_downloads_are_described() {
    let e = |step| download_error(step, "plan9", "mips", "404 Not Found");
    assert_eq!(e(DownloadStep::Platform), "unsupported platform (os=plan9, arch=mips) for codex binary download");
    assert_eq!(e(DownloadStep::Status), "failed to download codex binary: HTTP 404 Not Found");
    assert_eq!(e(DownloadStep::Find), "codex binary not found in downloaded archive");
    assert_eq!(e(DownloadStep::Request), "failed to download codex binary");
}

#[test]
fn events_may_be_arrays_that_begin_with_their_type() {
    assert!(matches!(parse_jsonl_line(r#"["thread.started","t"]"#), Some(CodexJsonlEvent::ThreadStarted { thread_id }) if thread_id == "t"));
    assert!(matches!(parse_jsonl_line(r#"["turn.started"]"#), Some(CodexJsonlEvent::TurnStarted)));
    assert!(matches!(parse_jsonl_line(r#"["turn.completed",[1,2,3]]"#), Some(CodexJsonlEvent::TurnCompleted { usage }) if usage.output_tokens == 3));
    assert!(parse_jsonl_line(r#"["turn.started",1]"#).is_none());
    assert!(parse_jsonl_line(r#"["thread.started"]"#).is_none());
    assert!(parse_jsonl_line(r#"["turn.completed",[1,2]]"#).is_none());
    assert!(parse_jsonl_line("[]").is_none());
    assert!(parse_jsonl_line("[1]").is_none());
}

#[test]
fn members_of_an_event_come_once() {
    assert!(parse_jsonl_line(r#"{"type":"turn.started","type":"turn.started"}"#).is_none());
    assert!(parse_jsonl_line(r#"{"type":"thread.started","thread_id":"a","thread_id":"b"}"#).is_none());
    assert!(parse_jsonl_line(r#"{"type":"turn.completed","usage":{"input_tokens":1,"output_tokens":2,"input_tokens":1}}"#).is_none());
    assert!(matches!(parse_jsonl_line(r#"{"type":"turn.started","x":1,"x":2}"#), Some(CodexJsonlEvent::TurnStarted)));
    assert!(parse_jsonl_line(r#"{"type":"turn.started","x":"\ud800"}"#).is_none());
    let item = r#"{"item": {"id": 1, "id": 2}, "type": "item.started"}"#;
    assert!(matches!(parse_jsonl_line(item), Some(CodexJsonlEvent::ItemStarted { item }) if item == r#"{"id":2}"#));
}
