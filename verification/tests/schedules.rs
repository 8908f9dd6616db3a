use host_plugins::crontab::{cron_delay_at, decide_schedule, delay_until, extract_schedules, next_cron_delay, normalize, parse_schedule_config, read_fields, task_step, Crontab, Delay, ScheduleError, ScheduleFields, ScheduleKind, TaskAction, TaskEvent};
use host_plugins::table::{Config, Table};
use host_plugins::world::{one, WitInterface};

#[test]
fn test_parse_schedule_config_cron() {
    let (name, kind) = parse_schedule_config("name=tick;cron=*/30 * * * *").unwrap();
    assert_eq!(name, "tick");
    assert!(matches!(kind, ScheduleKind::Cron(e) if e == "0 */30 * * * * *"));
}

#[test]
fn test_parse_schedule_config_delay() {
    let (name, kind) = parse_schedule_config("name=init;delay-ms=5000").unwrap();
    assert_eq!(name, "init");
    assert!(matches!(kind, ScheduleKind::Delay(5000)));
}

#[test]
fn test_parse_schedule_config_with_spaces() {
    let (name, kind) = parse_schedule_config("name = tick ; cron = */30 * * * *").unwrap();
    assert_eq!(name, "tick");
    assert!(matches!(kind, ScheduleKind::Cron(_)));
}

#[test]
fn test_parse_schedule_config_invalid() {
    assert!(parse_schedule_config("invalid").is_none());
    assert!(parse_schedule_config("name=test").is_none());
}

#[test]
fn test_parse_schedule_config_invalid_cron_expr() {
    assert!(parse_schedule_config("name=test;cron=invalid").is_none());
}

#[test]
fn test_extract_schedules() {
    let mut config: Config = Table::new();
    config.insert("schedule.tick".to_string(), "name=tick;cron=*/30 * * * *".to_string());
    config.insert("schedule.cleanup".to_string(), "name=cleanup;cron=0 0 * * *".to_string());
    config.insert("schedule.init".to_string(), "name=init;delay-ms=5000".to_string());
    config.insert("other".to_string(), "ignored".to_string());

    let schedules = extract_schedules(&config);
    assert_eq!(schedules.len(), 3);

    let names: Vec<&str> = schedules.iter().map(|(n, _)| n.as_str()).collect();
    assert!(names.contains(&"tick"));
    assert!(names.contains(&"cleanup"));
    assert!(names.contains(&"init"));
}

#[test]
fn test_cron_next_delay() {
    let delay = next_cron_delay("0 */30 * * * * *");
    assert!(delay.is_some());
    assert!(delay.unwrap().seconds <= 1800);
    assert!(next_cron_delay("nonsense").is_none());
}

#[test]
fn test_parse_hourly_cron() {
    let (name, kind) = parse_schedule_config("name=hourly;cron=0 * * * *").unwrap();
    assert_eq!(name, "hourly");
    assert!(matches!(kind, ScheduleKind::Cron(_)));
}

#[test]
fn the_last_value_of_a_key_counts_and_cron_goes_first() {
    let f = read_fields("name=a;name=b;delay-ms=1;cron=* * * * *;x=y");
    assert_eq!(f.name.as_deref(), Some("b"));
    assert!(matches!(decide_schedule(f, true), Some((n, ScheduleKind::Cron(_))) if n == "b"));
    let g = ScheduleFields { name: Some("n".to_string()), cron: Some("x".to_string()), delay_ms: Some("5".to_string()) };
    assert!(decide_schedule(g, false).is_none());
    assert!(parse_schedule_config("name=x;delay-ms=-5").is_none());
    assert_eq!(normalize("* * * * *"), "0 * * * * * *");
    assert_eq!(normalize("0 0 0 1 1 * 2030"), "0 0 0 1 1 * 2030");
}

#[test]
fn entries_without_the_prefix_may_still_be_schedules() {
    let mut c: Config = Table::new();
    c.insert("x".to_string(), "name=a;delay-ms=7".to_string());
    c.insert("y".to_string(), "name=b".to_string());
    c.insert("schedule.bad".to_string(), "nothing".to_string());
    let s = extract_schedules(&c);
    assert_eq!(s.len(), 1);
    assert_eq!(s[0].0, "a");
}

#[test]
fn delays_are_exact() {
    assert_eq!(delay_until(Some(10), 7, 0), Some(Delay { seconds: 3, nanos: 0 }));
    assert_eq!(delay_until(Some(10), 7, 250_000_000), Some(Delay { seconds: 2, nanos: 750_000_000 }));
    assert_eq!(delay_until(Some(7), 7, 1), None);
    assert_eq!(delay_until(Some(6), 7, 0), None);
    assert_eq!(delay_until(None, 7, 0), None);
    // 2024-01-01 00:00:10 UTC, on the minute.
    assert_eq!(cron_delay_at("0 * * * * * *", 1_704_067_210, 0), Some(Delay { seconds: 50, nanos: 0 }));
    assert_eq!(cron_delay_at("0 0 0 1 1 * 2020", 1_704_067_210, 0), None);
    assert_eq!(cron_delay_at("0 * * * * * *", i64::MAX, 0), None);
    assert_eq!(cron_delay_at("0 * * * * * *", 0, 1_000_000_000), None);
}

#[test]
fn tasks_wait_and_fire() {
    let cron = ScheduleKind::Cron("0 * * * * * *".to_string());
    let delay = ScheduleKind::Delay(5);
    assert_eq!(task_step(&cron, TaskEvent::Slept), TaskAction::Fire);
    assert_eq!(task_step(&cron, TaskEvent::Fired), TaskAction::WaitAgain);
    assert_eq!(task_step(&delay, TaskEvent::Fired), TaskAction::Stop);
    assert_eq!(task_step(&cron, TaskEvent::Cancelled), TaskAction::Stop);
    assert_eq!(task_step(&cron, TaskEvent::NoNextTime), TaskAction::Stop);
}

fn bound() -> Crontab {
    let mut p = Crontab::new();
    let mut i = WitInterface::of("custom", "crontab", one("scheduler"), "0.1.0");
    i.config.insert("schedule.tick".to_string(), "name=tick;delay-ms=1".to_string());
    let exports = vec![WitInterface::of("custom", "crontab", one("handler"), "0.1.0")];
    assert!(!p.on_workload_item_bind("c", "w", true, &vec![], &exports, 9));
    assert!(p.on_workload_item_bind("c", "w", true, &vec![i], &exports, 9));
    p
}

#[test]
fn schedules_are_added_listed_and_removed() {
    let mut p = bound();
    assert_eq!(p.list_schedules("c"), vec!["tick"]);
    assert!(matches!(p.schedule("c", "a", "* * * * *", 1), Err(ScheduleError::Internal(m)) if m == "workload not resolved yet"));
    assert_eq!(p.on_workload_resolved("w", "c").len(), 1);
    p.task_started("c", "tick", 5);
    assert!(matches!(p.schedule("c", "a", "* * * * *", 1), Ok(ScheduleKind::Cron(e)) if e == "0 * * * * * *"));
    assert!(matches!(p.schedule("c", "a", "* * * * *", 2), Err(ScheduleError::AlreadyExists(m)) if m == "schedule 'a' already exists"));
    assert!(matches!(p.schedule("c", "b", "bad", 2), Err(ScheduleError::InvalidExpression(m)) if m.starts_with("invalid cron expression 'bad': ")));
    assert!(matches!(p.schedule_delay("c", "d", 250, 3), Ok(ScheduleKind::Delay(250))));
    assert_eq!(p.list_schedules("c"), vec!["tick", "a", "d"]);
    assert_eq!(p.remove("c", "a").unwrap(), Some(1));
    assert_eq!(p.remove("c", "tick").unwrap(), Some(5));
    assert!(matches!(p.remove("c", "a"), Err(ScheduleError::NotFound(m)) if m == "schedule 'a' not found"));
    assert!(matches!(p.remove("x", "a"), Err(ScheduleError::Internal(_))));
    assert!(matches!(p.schedule_delay("x", "a", 1, 1), Err(ScheduleError::Internal(m)) if m.starts_with("component not tracked")));
    assert_eq!(p.list_schedules("c"), vec!["d"]);
    assert!(p.list_schedules("x").is_empty());
    assert_eq!(p.on_workload_unbind("w"), vec![9]);
}
