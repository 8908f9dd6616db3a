use host_plugins::dingtalk_stream::{build_synthetic_message, oto_text_param, send_outcome, token_outcome, DingTalk, DingtalkConfig, DingtalkError, GuestCallbackBridge, ServiceError};
use host_plugins::dispatch::{loop_step, LoopAction, LoopEvent};
use host_plugins::event_monitor::{build_kube_config, call_error as cluster_error, evaluate_condition_for_event, guest_event, list_watchable, next_discovery, parse_condition, passes, plan_watches, rule_needs_host, Admission, CallStep, DiscoveredGroup, DiscoveredResource, EventAction, EventMonitor, WatchEvent, WatchRule, WatchableResource, WatchedObject};
use host_plugins::feishu::{call_error, department_query, guest_message as feishu_message, page_request, reply_message, send_text, CallKind, Feishu, FeishuConfig, FeishuError, MessageEvent, ResolveAction as FeishuAction};
use host_plugins::feishu_api::{add_group_members, build_query_string, create_bitable, create_calendar_event, create_card, create_document, create_group, create_spreadsheet, delete_calendar_event, get_calendar_event, get_document, get_group, get_mail as feishu_get_mail, get_spreadsheet, list_bitable_records, list_bitable_tables, list_calendar_events, list_calendars, list_group_members, list_mails as feishu_list_mails, recognize_text, remove_group_members, send_mail as feishu_send_mail, translate, update_card, update_group, Method};
use host_plugins::json::read_value;
use host_plugins::mail::{address_list, connect_error as imap_connect_error, extract_bodies, format_address, get_mail, imap_error, list_mails, list_request, mail_entry, mail_list_json, parse_addresses, part_kind, recent_uids, send_error, uid_set, ConnectStep, EnvelopeAddress, FetchedBody, FetchedMail, ImapOutcome, ImapStep, Mail, MailBody, MailConfig, MailError, MailPart, OutgoingMail, PartKind, SendStep};
use host_plugins::nats_utils::{build_nats_connect_options, connect_error as nats_connect_error, NatsAuth};
use host_plugins::table::{Config, Table};
use host_plugins::telegram::{chat_id_of, guest_message as telegram_message, media_request, send_outcome as telegram_outcome, InboundMessage, ResolveAction, Sender, Telegram, TelegramConfig, TelegramError};
use host_plugins::world::{one, WitInterface};

fn config(entries: Vec<(&str, &str)>) -> Config {
    let mut c: Config = Table::new();
    for (k, v) in entries {
        c.insert(k.to_string(), v.to_string());
    }
    c
}

fn interface(package: &str, entries: Vec<(&str, &str)>) -> Vec<WitInterface> {
    let mut i = WitInterface::of("custom", package, one("sender"), "0.1.0");
    i.config = config(entries);
    vec![i]
}

// ---- Mail ----

#[test]
fn test_parse_addresses_valid() {
    let addrs = parse_addresses("a@b.com, c@d.com").ok().unwrap();
    assert_eq!(addrs.len(), 2);
    assert_eq!((addrs[1].user.as_str(), addrs[1].domain.as_str()), ("c", "d.com"));
}

#[test]
fn test_parse_addresses_single() {
    let addrs = parse_addresses("test@example.com").ok().unwrap();
    assert_eq!(addrs.len(), 1);
    assert!(addrs[0].name.is_none());
}

#[test]
fn test_parse_addresses_invalid() {
    let result = parse_addresses("not-an-email");
    assert!(result.is_err());
    assert!(result.err().unwrap().starts_with("invalid address 'not-an-email': "));
}

#[test]
fn test_parse_addresses_empty() {
    let result = parse_addresses("");
    assert!(result.is_err());
    assert_eq!(parse_addresses(" , ,").err().unwrap(), "no valid addresses provided");
    assert_eq!(address_list(" a@b.c ,, d@e.f"), vec!["a@b.c", "d@e.f"]);
}

fn mail_plugin(entries: Vec<(&str, &str)>) -> Mail {
    let mut p = Mail::new();
    assert!(p.on_workload_item_bind("c", true, &interface("mail", entries)));
    p
}

const FULL: [(&str, &str); 4] =
    [("smtp-host", "smtp.x"), ("username", "u"), ("password", "p"), ("default-from", "Me <me@x.org>")];

#[test]
fn mail_clients_are_configured() {
    let p = mail_plugin(vec![("smtp-host", "smtp.x")]);
    assert_eq!(p.new_client("zz", None).err().unwrap(), "component not tracked");
    assert_eq!(p.new_client("c", None).err().unwrap(), "missing username: provide via constructor or interface config");
    let mut entries = FULL.to_vec();
    entries.push(("smtp-port", "bad"));
    entries.push(("imap-port", "1993"));
    let h = mail_plugin(entries).new_client("c", None).ok().unwrap();
    assert_eq!((h.config.smtp_port, h.config.imap_port), (465, 1993));
    assert_eq!(h.imap_address().err().unwrap(), "IMAP host not configured");
    let passed = MailConfig {
        smtp_host: "other".to_string(),
        smtp_port: Some(2525),
        username: "x".to_string(),
        password: "y".to_string(),
        default_from: "z@z.z".to_string(),
        imap_host: Some("imap.x".to_string()),
    };
    let h = mail_plugin(FULL.to_vec()).new_client("c", Some(passed)).ok().unwrap();
    assert_eq!((h.config.smtp_host.as_str(), h.config.smtp_port), ("other", 2525));
    assert_eq!(h.imap_address().ok().unwrap(), "imap.x:993");
    let mut q = mail_plugin(FULL.to_vec());
    q.on_workload_unbind("c");
    assert!(q.new_client("c", None).is_err());
}

fn outgoing(r: Result<OutgoingMail, MailError>) -> OutgoingMail {
    match r {
        Ok(m) => m,
        Err(_) => panic!("expected a mail"),
    }
}

#[test]
fn mails_are_composed() {
    let h = mail_plugin(FULL.to_vec()).new_client("c", None).ok().unwrap();
    let m = outgoing(h.send_mail("a@b.c", "S", Some("t".to_string()), Some("<h>".to_string()), Some(String::new()), Some("x@y.z, p@q.r".to_string())));
    assert_eq!(m.from.name.as_deref(), Some("Me"));
    assert_eq!((m.to.len(), m.cc.len(), m.bcc.len()), (1, 0, 2));
    assert!(matches!(m.body, MailBody::Alternative { text, html } if text == "t" && html == "<h>"));
    let plain = outgoing(h.send_mail("a@b.c", "S", None, Some("<h>".to_string()), None, None));
    assert!(matches!(plain.body, MailBody::Single(t) if t == "<h>"));
    assert!(matches!(h.send_mail("a@b.c", "S", None, None, None, None), Err(MailError::InvalidAddress(m)) if m == "either body-text or body-html must be provided"));
    assert!(matches!(h.send_mail("bad", "S", None, None, None, None), Err(MailError::InvalidAddress(m)) if m.starts_with("invalid address 'bad'")));
    assert!(matches!(h.send_mail("a@b.c", "S", None, None, Some("bad".to_string()), None), Err(MailError::InvalidAddress(m)) if m.starts_with("invalid address 'bad'")));
    let mut broken = FULL.to_vec();
    broken[3] = ("default-from", "nobody");
    let b = mail_plugin(broken).new_client("c", None).ok().unwrap();
    assert!(matches!(b.send_mail("a@b.c", "S", None, None, None, None), Err(MailError::InvalidAddress(m)) if m.starts_with("invalid from address 'nobody': ")));
    assert!(matches!(send_error(SendStep::Send, "e"), MailError::SendFailed(m) if m == "smtp send failed: e"));
    assert!(matches!(send_error(SendStep::OpenTransport, "e"), MailError::Internal(m) if m == "failed to create SMTP transport: e"));
    assert!(matches!(send_error(SendStep::BuildMail, "e"), MailError::SendFailed(m) if m == "failed to build email: e"));
}

#[test]
fn listings_take_the_last_messages() {
    let q = list_request(None, None, None);
    assert_eq!((q.mailbox.as_str(), q.criteria.as_str(), q.limit), ("INBOX", "ALL", 20));
    assert_eq!(list_request(Some("Sent".to_string()), Some("UNSEEN".to_string()), Some(3)).limit, 3);
    let uids: Vec<u32> = (1..=5).collect();
    assert_eq!(recent_uids(&uids, 2), vec![4, 5]);
    assert_eq!(recent_uids(&uids, 9), uids);
    assert!(recent_uids(&uids, 0).is_empty());
    assert_eq!(recent_uids(&vec![7, 2, 9, 2, 5], 3), vec![5, 7, 9]);
    assert_eq!(recent_uids(&vec![3, 1, 2], 9), vec![1, 2, 3]);
    assert_eq!(uid_set(&vec![4, 50]), "4,50");
    assert_eq!(uid_set(&vec![]), "");
}

#[test]
fn listed_messages_become_json() {
    let m = FetchedMail {
        uid: Some(7),
        subject: Some(b"Hi \xff".to_vec()),
        from: Some(EnvelopeAddress { name: Some(b"Ann".to_vec()), mailbox: Some(b"ann".to_vec()), host: Some(b"x.org".to_vec()) }),
        date: None,
        flags: vec!["Seen".to_string()],
    };
    let e = mail_entry(&m);
    assert_eq!(e.from, "Ann ann@x.org");
    let none: Vec<FetchedMail> = vec![];
    assert!(matches!(list_mails(ImapOutcome::Done(none)), Ok(Ok(t)) if t == "[]"));
    assert!(matches!(list_mails(ImapOutcome::NotConnected("e".to_string())), Ok(Err(MailError::Internal(x))) if x == "e"));
    let broken = ImapOutcome::StepFailed { step: ImapStep::Select, mailbox: "Sent".to_string(), message: "e".to_string() };
    assert!(matches!(list_mails(broken), Err(MailError::Internal(x)) if x == "failed to select mailbox 'Sent': e"));
    assert_eq!(
        mail_list_json(&vec![e]),
        "[{\"uid\":\"7\",\"subject\":\"Hi \u{fffd}\",\"from\":\"Ann ann@x.org\",\"date\":\"\",\"flags\":[\"Seen\"]}]"
    );
    assert!(matches!(list_mails(ImapOutcome::Done(vec![m])), Ok(Ok(t)) if t.starts_with("[{\"uid\":\"7\",")));
    assert_eq!(mail_list_json(&vec![]), "[]");
    assert_eq!(format_address(&None, "ann", &None), "ann");
    assert!(matches!(imap_error(ImapStep::Select, "INBOX", "e"), MailError::Internal(m) if m == "failed to select mailbox 'INBOX': e"));
    assert!(matches!(imap_error(ImapStep::Search, "", "e"), MailError::Internal(m) if m == "IMAP search failed: e"));
    assert!(matches!(imap_error(ImapStep::Fetch, "", "e"), MailError::Internal(m) if m == "IMAP fetch failed: e"));
    assert!(matches!(imap_error(ImapStep::Collect, "", "e"), MailError::Internal(m) if m == "IMAP fetch collect failed: e"));
}

#[test]
fn bodies_are_found_in_the_parts_of_a_mail() {
    let part = |b: &str, span| MailPart { content_type: None, body: Some(b.to_string()), span };
    let parts = vec![part("", 5), part("plain", 1), part("", 2), part("hidden", 1), part("<p>", 1)];
    let kinds = vec![PartKind::Multipart, PartKind::Plain, PartKind::Other, PartKind::Plain, PartKind::Html];
    let b = extract_bodies(&parts, &kinds);
    assert_eq!((b.text.as_deref(), b.html.as_deref(), b.content_type.as_str()), (Some("plain"), Some("<p>"), "text/html"));
    assert_eq!(part_kind("text/plain; charset=utf-8"), PartKind::Plain);
    assert_eq!(part_kind("multipart/mixed"), PartKind::Multipart);
    assert_eq!(part_kind(""), PartKind::Other);
}

#[test]
fn mails_are_read_from_their_bytes() {
    let raw = "From: a@b.c\r\nTo: d@e.f\r\nSubject: Hello\r\nContent-Type: MULTIPART/alternative; boundary=xx\r\n\r\n--xx\r\nContent-Type: text/plain\r\n\r\nplain\r\n--xx\r\nContent-Type: text/html\r\n\r\n<b>html</b>\r\n--xx--\r\n";
    let json = match get_mail("7", ImapOutcome::Done(vec![FetchedBody { uid: Some(7), body: Some(raw.as_bytes().to_vec()) }])) {
        Ok(Ok(j)) => j,
        _ => panic!("expected a mail"),
    };
    let v: serde_json::Value = serde_json::from_str(&json).unwrap();
    assert_eq!(v["subject"], "Hello");
    assert_eq!(v["to"], "d@e.f");
    assert_eq!(v["date"], "");
    assert_eq!(v["uid"], "7");
    assert!(v["body_text"].as_str().unwrap().starts_with("plain"));
    assert!(v["body_html"].as_str().unwrap().starts_with("<b>html</b>"));
    assert_eq!(v["content_type"], "text/html");
    assert!(matches!(get_mail("9", ImapOutcome::Done(vec![])), Ok(Err(MailError::Internal(m))) if m == "message '9' not found"));
    let empty = ImapOutcome::Done(vec![FetchedBody { uid: None, body: None }]);
    assert!(matches!(get_mail("9", empty), Ok(Err(MailError::Internal(m))) if m == "message has no body content"));
    let unread = ImapOutcome::Done(vec![FetchedBody { uid: None, body: Some(b" overhanging\r\n\r\nbody".to_vec()) }]);
    assert!(matches!(get_mail("9", unread), Err(MailError::Internal(m)) if m.starts_with("failed to parse email: ")));
    assert!(matches!(get_mail("9", ImapOutcome::NotConnected("e".to_string())), Ok(Err(MailError::Internal(m))) if m == "e"));
    let broken = ImapOutcome::StepFailed { step: ImapStep::Fetch, mailbox: "INBOX".to_string(), message: "e".to_string() };
    assert!(matches!(get_mail("9", broken), Err(MailError::Internal(m)) if m == "IMAP fetch failed: e"));
}

// ---- Feishu ----

#[test]
fn test_build_query_string() {
    let params = read_value("{\"page_size\": \"10\", \"page_token\": \"abc\"}");
    let query = build_query_string(&params);
    assert!(query.contains("page_size=10"));
    assert!(query.contains("page_token=abc"));
    assert_eq!(build_query_string(&read_value("{\"a\": 1, \"b\": \"x\"}")), "b=x");
}

#[test]
fn test_build_query_string_empty() {
    assert!(build_query_string(&read_value("{}")).is_empty());
    assert!(build_query_string(&read_value("[1]")).is_empty());
}

#[test]
fn calls_of_the_api_are_addressed() {
    let c = list_group_members("oc_1", "{\"page_size\":\"5\"}").ok().unwrap();
    assert_eq!(c.url, "https://open.feishu.cn/open-apis/im/v1/chats/oc_1/members?page_size=5");
    assert_eq!(list_calendars("{}").ok().unwrap().url, "https://open.feishu.cn/open-apis/calendar/v4/calendars");
    assert!(list_calendars("nonsense").is_err());
    let d = remove_group_members("oc_1", "{}".to_string());
    assert_eq!((d.method, d.body.as_deref()), (Method::Delete, Some("{}")));
    let e = delete_calendar_event("cal", "ev");
    assert!(e.body.is_none());
    assert_eq!(e.url, "https://open.feishu.cn/open-apis/calendar/v4/calendars/cal/events/ev");
    assert_eq!(update_card("k", String::new()).method, Method::Patch);
    assert_eq!(feishu_get_mail("box", "m").url, "https://open.feishu.cn/open-apis/mail/v1/user_mailboxes/box/messages/m");
    assert_eq!(list_bitable_records("app", "tab", "{}".to_string()).url, "https://open.feishu.cn/open-apis/bitable/v1/apps/app/tables/tab/records/search");
    let r = create_bitable("{}".to_string()).with_token("tok");
    assert_eq!(r.authorization, "Bearer tok");
    assert_eq!(r.content_type.as_deref(), Some("application/json"));
    assert!(e.with_token("t").content_type.is_none());
}

#[test]
fn messages_reach_the_guest() {
    let e = MessageEvent {
        message_id: "m1".to_string(),
        chat_id: "c1".to_string(),
        message_type: "text".to_string(),
        content: "{\"text\":\"hi\"}".to_string(),
        create_time: "1".to_string(),
        sender_open_id: "u1".to_string(),
        sender_type: "user".to_string(),
    };
    let m = feishu_message(&e);
    assert_eq!(m.text_content.as_deref(), Some("hi"));
    assert_eq!(m.sender_id, "u1");
    assert_eq!(
        m.raw_json,
        "{\"message_id\":\"m1\",\"chat_id\":\"c1\",\"message_type\":\"text\",\"content\":\"{\\\"text\\\":\\\"hi\\\"}\",\"sender_open_id\":\"u1\"}"
    );
    let image = MessageEvent { message_type: "image".to_string(), ..e };
    assert!(feishu_message(&image).text_content.is_none());
    assert_eq!(send_text("c", "x").receive_id_type, "chat_id");
    assert_eq!(reply_message("x").receive_id, "");
    assert_eq!(department_query("dep").user_id_type, "open_id");
    assert!(matches!(call_error(CallKind::Token, "e".to_string()), FeishuError::AuthFailed(_)));
    assert!(matches!(call_error(CallKind::Send, "e".to_string()), FeishuError::SendFailed(_)));
    assert!(matches!(call_error(CallKind::Other, "e".to_string()), FeishuError::Internal(_)));
}

#[test]
fn pages_of_tasks_are_asked_for() {
    let p = page_request("{\"page_size\": 4294967301, \"page_token\": \"t\"}").ok().unwrap();
    assert_eq!((p.page_size, p.page_token.as_deref()), (Some(5), Some("t")));
    let q = page_request("{\"page_size\": \"5\"}").ok().unwrap();
    assert!(q.page_size.is_none() && q.page_token.is_none());
    assert!(matches!(page_request("nonsense"), Err(FeishuError::Internal(_))));
}

#[test]
fn feishu_streams_start_once() {
    let mut p = Feishu::new();
    assert!(p.on_workload_item_bind("c", "w", true, &interface("feishu", vec![("app-id", "i"), ("app-secret", "s")])));
    assert!(p.on_workload_item_bind("d", "w", true, &interface("feishu", vec![("app-id", "i")])));
    assert!(p.new_client("c", None).err().unwrap().starts_with("feishu client not started"));
    assert!(matches!(p.on_workload_resolved("w", "c", 5), FeishuAction::StartStream(a) if a.app_id == "i"));
    assert!(matches!(p.on_workload_resolved("w", "c", 6), FeishuAction::Nothing));
    assert!(matches!(p.on_workload_resolved("w", "d", 7), FeishuAction::SkipStream));
    assert!(matches!(p.on_workload_resolved("w", "zz", 8), FeishuAction::Nothing));
    assert_eq!(p.new_client("c", None).ok().unwrap().client.app_secret, "s");
    let passed = FeishuConfig { app_id: "x".to_string(), app_secret: "y".to_string() };
    assert_eq!(p.new_client("c", Some(passed)).ok().unwrap().client.app_secret, "y");
    assert_eq!(p.new_client("zz", None).err().unwrap(), "component not tracked");
    assert_eq!(p.on_workload_unbind("w"), vec![5]);
}

// ---- Telegram ----

#[test]
fn telegram_polls_once_for_each_component() {
    let mut p = Telegram::new();
    assert!(p.on_workload_item_bind("c", "w", true, &interface("telegram", vec![("bot_token", "t")])));
    assert!(!p.on_workload_item_bind("s", "w", false, &interface("telegram", vec![])));
    assert!(p.new_bot("c", None).err().unwrap().starts_with("telegram bot not started"));
    assert!(matches!(p.on_workload_resolved("w", "c", 1), ResolveAction::StartPolling(t) if t == "t"));
    assert!(matches!(p.on_workload_resolved("w", "c", 2), ResolveAction::Nothing));
    assert_eq!(p.new_bot("c", None).ok().unwrap().bot, "t");
    let passed = TelegramConfig { bot_token: "other".to_string() };
    assert_eq!(p.new_bot("c", Some(passed)).ok().unwrap().bot, "other");
    assert_eq!(p.on_workload_unbind("w"), vec![1]);
    assert_eq!(p.new_bot("c", None).err().unwrap(), "component not tracked");
}

#[test]
fn telegram_messages_are_numbered_in_text() {
    let m = telegram_message(&InboundMessage {
        id: 12,
        chat_id: -1001234567890,
        from: Some(Sender { id: 77, username: Some("ann".to_string()) }),
        text: Some("hi".to_string()),
        timestamp: 1700000000,
    });
    assert_eq!((m.message_id.as_str(), m.chat_id.as_str(), m.sender_id.as_str()), ("12", "-1001234567890", "77"));
    assert_eq!(chat_id_of(&m.chat_id).ok().unwrap(), -1001234567890);
    assert_eq!(chat_id_of("me").err().unwrap(), "invalid chat_id: me");
    let anon = telegram_message(&InboundMessage { id: 1, chat_id: 2, from: None, text: None, timestamp: 0 });
    assert_eq!(anon.sender_id, "");
    assert!(matches!(media_request("1", "/f", false, None), Ok(Err(TelegramError::SendFailed(m))) if m == "file not found: /f"));
    assert!(media_request("x", "/f", true, None).is_err());
    assert!(matches!(media_request("1", "/f", true, Some("c".to_string())), Ok(Ok(q)) if q.chat_id == 1 && q.caption.as_deref() == Some("c")));
    assert!(matches!(telegram_outcome(Err("e".to_string())), Err(TelegramError::SendFailed(m)) if m == "e"));
    assert_eq!(loop_step(LoopEvent::Failed), LoopAction::Continue);
    assert_eq!(loop_step(LoopEvent::Item), LoopAction::Handle);
    assert_eq!(loop_step(LoopEvent::Ended), LoopAction::Stop);
}

// ---- DingTalk ----

#[test]
fn test_build_synthetic_message() {
    let msg = build_synthetic_message("conv_123", "user_456");
    assert_eq!(msg.conversation_id.as_deref(), Some("conv_123"));
    assert_eq!(msg.sender_id.as_deref(), Some("user_456"));
    assert_eq!(msg.conversation_type.as_deref(), Some("1"));
}

#[test]
fn callbacks_are_always_acknowledged() {
    let b = GuestCallbackBridge { component_id: "c".to_string() };
    let bad = b.process("no json");
    assert_eq!((bad.status, bad.body.as_str()), (200, "OK"));
    assert!(bad.message.is_none());
    let data = "{\"conversationId\":\"cid\",\"senderId\":\"s\",\"isAdmin\":true,\"msgtype\":\"text\",\"text\":{\"content\":\"hi\"}}";
    let good = b.process(data);
    assert_eq!(good.status, 200);
    let m = good.message.unwrap();
    assert_eq!(m.conversation_id, "cid");
    assert_eq!(m.text_content.as_deref(), Some("hi"));
    assert!(m.is_admin && !m.is_at);
    assert_eq!(m.sender_nick, "");
    assert_eq!(m.raw_json, data);
}

#[test]
fn dingtalk_clients_are_configured() {
    let mut p = DingTalk::new();
    assert_eq!(p.new_client("c", None, 1).err().unwrap(), "component not tracked");
    assert!(p.on_workload_item_bind("c", "w", true, &interface("dingtalk-stream", vec![("client-id", "i")])));
    assert_eq!(p.new_client("c", None, 1).err().unwrap(), "missing client-secret: provide via constructor or interface config");
    let passed = || Some(DingtalkConfig { client_id: "x".to_string(), client_secret: "y".to_string() });
    assert_eq!(p.new_client("c", passed(), 1).err().unwrap(), "workload not resolved yet");
    p.on_workload_resolved("w", "c");
    let h = p.new_client("c", passed(), 8).ok().unwrap();
    assert_eq!((h.client_id.as_str(), h.client_secret.as_str(), h.cancel_token), ("x", "y", 8));
    p.on_workload_unbind("w");
    assert!(p.new_client("c", passed(), 1).is_err());
    assert_eq!(oto_text_param("a\"b"), "{\"content\":\"a\\\"b\"}");
    assert_eq!(
        oto_text_param("\\/\u{0}\u{8}\t\n\u{b}\u{c}\r\u{1f}\u{7f}é"),
        "{\"content\":\"\\\\/\\u0000\\b\\t\\n\\u000b\\f\\r\\u001f\u{7f}é\"}"
    );
    assert!(matches!(send_outcome(Err(ServiceError::Auth("e".to_string()))), Err(DingtalkError::AuthFailed(_))));
    assert!(matches!(send_outcome(Err(ServiceError::Other("e".to_string()))), Err(DingtalkError::SendFailed(_))));
    assert!(matches!(token_outcome(Err(ServiceError::Other("e".to_string()))), Err(DingtalkError::Internal(_))));
}

// ---- Kubernetes ----

#[test]
fn test_parse_condition_empty() {
    assert!(parse_condition("").is_none());
    assert!(parse_condition("  ").is_none());
    assert!(parse_condition("null").is_none());
    assert!(parse_condition("true").is_none());
}

#[test]
fn test_parse_condition_valid() {
    let c = parse_condition(r#"{"==": [{"var": "type"}, "Normal"]}"#);
    assert!(c.is_some());
    assert!(parse_condition("{bad").is_none());
}

fn object(json: &str) -> WatchedObject {
    WatchedObject { name: Some("pod-1".to_string()), namespace: Some("ns".to_string()), json: Some(json.to_string()) }
}

#[test]
fn conditions_filter_events() {
    let rule = parse_condition(r#"{"==": [{"var": "type"}, "Normal"]}"#);
    let normal = WatchEvent::Apply(object("{\"type\":\"Normal\"}"));
    let warning = WatchEvent::Delete(object("{\"type\":\"Warning\"}"));
    assert_eq!(evaluate_condition_for_event(&rule, &normal), Admission::Pass);
    assert_eq!(evaluate_condition_for_event(&rule, &warning), Admission::Filtered);
    assert_eq!(evaluate_condition_for_event(&rule, &WatchEvent::Init), Admission::Filtered);
    assert_eq!(evaluate_condition_for_event(&None, &WatchEvent::Init), Admission::Pass);
    let sum = Some("{\"==\":[{\"+\":[1,2]},3]}".to_string());
    assert!(rule_needs_host(sum.as_ref().unwrap()));
    assert_eq!(evaluate_condition_for_event(&sum, &normal), Admission::Unevaluated);
    for plain in [r#"{"==": [{"var": "type"}, "+"]}"#, r#"{"!=": ["a\\b", {"+": 1, "b": 2}]}"#, r#"{"!": []}"#, r#"[{"+": [1]}]"#] {
        assert!(!rule_needs_host(plain), "{}", plain);
    }
    for computing in [
        r#"{"!": {"min": [1]}}"#,
        r#"{"and": [true, {"\u002b": [1, 2]}]}"#,
        r#"{"substr": ["abc", 1]}"#,
        r#"{"reduce":[{"var":"items"},{"var":""}]}"#,
        r#"{"log": "x"}"#,
        r#"{"map": [{"filter": [[1], true]}, 1]}"#,
        r#"{"some": [[1], {"!": {"all": [[1], true]}}]}"#,
    ] {
        assert!(rule_needs_host(computing), "{}", computing);
    }
    let some = parse_condition(r#"{"and": [{"some": [{"var": "tags"}, {"==": [{"var": ""}, "x"]}]}, {"none": [{"var": "tags"}, {"==": [{"var": ""}, "z"]}]}]}"#);
    assert_eq!(evaluate_condition_for_event(&some, &WatchEvent::Apply(object(r#"{"tags":["y","x"]}"#))), Admission::Pass);
    assert_eq!(evaluate_condition_for_event(&some, &WatchEvent::Apply(object(r#"{"tags":["y"]}"#))), Admission::Filtered);
    let escaped = parse_condition(r#"{"==": [{"var": "type"}, "Nor\u006dal"]}"#);
    assert_eq!(evaluate_condition_for_event(&escaped, &normal), Admission::Pass);
    let unwritable = WatchEvent::Apply(WatchedObject { name: None, namespace: None, json: None });
    assert_eq!(evaluate_condition_for_event(&rule, &unwritable), Admission::Filtered);
    assert!(passes(&Some("true".to_string())));
    assert!(!passes(&Some("1".to_string())) && !passes(&None));
}

#[test]
fn the_guest_is_told_what_happened() {
    let e = guest_event("g", "v1", "Pod", &WatchEvent::Delete(object("{}"))).unwrap();
    assert_eq!(e.action, EventAction::Deleted);
    assert_eq!((e.name.as_str(), e.namespace.as_deref()), ("pod-1", Some("ns")));
    assert_eq!(guest_event("g", "v1", "Pod", &WatchEvent::InitApply(object("{}"))).unwrap().action, EventAction::Applied);
    assert!(guest_event("g", "v1", "Pod", &WatchEvent::InitDone).is_none());
}

fn rule(id: &str, version: &str, kind: &str, namespace: Option<&str>) -> WatchRule {
    WatchRule {
        id: id.to_string(),
        res: WatchableResource { group: "apps".to_string(), version: version.to_string(), kind: kind.to_string() },
        namespace: namespace.map(String::from),
        condition: String::new(),
    }
}

fn resource(kind: &str, can_watch: bool, namespaced: bool) -> DiscoveredResource {
    DiscoveredResource {
        group: "apps".to_string(),
        version: "v1".to_string(),
        kind: kind.to_string(),
        can_watch,
        can_list: true,
        namespaced,
    }
}

#[test]
fn rules_become_watchers() {
    let groups = || vec![DiscoveredGroup {
        group: "apps".to_string(),
        version: "v1".to_string(),
        resources: vec![resource("Deployment", true, true), resource("Scale", false, true), resource("Node", true, false)],
    }];
    let rules = vec![
        rule("a", "v1", "Deployment", Some("prod")),
        rule("b", "v1", "Scale", None),
        rule("c", "v2", "Deployment", None),
        rule("d", "v1", "Node", Some("prod")),
        rule("e", "v1", "Deployment", Some("")),
    ];
    let plans = plan_watches(&rules, &groups());
    assert_eq!(plans.iter().map(|p| p.id.as_str()).collect::<Vec<_>>(), vec!["a", "d", "e"]);
    assert_eq!(plans[0].namespace.as_deref(), Some("prod"));
    assert!(plans[1].namespace.is_none() && plans[2].namespace.is_none());
    assert_eq!(next_discovery(&rules, &vec![], 0), Some(0));
    assert_eq!(next_discovery(&rules, &groups(), 0), Some(2));
    assert_eq!(next_discovery(&rules, &groups(), 3), None);
    assert_eq!(list_watchable(&groups()[0].resources).len(), 2);
}

#[test]
fn watchers_are_cancelled_before_new_ones() {
    let mut p = EventMonitor::new();
    let rules = || vec![rule("a", "v1", "Pod", None)];
    assert!(p.on_workload_item_bind("c", "w", true, &interface("event-monitor", vec![]), 1));
    assert_eq!(p.begin_watch("c", &vec![]).1.err().unwrap(), "no rules provided");
    assert_eq!(p.begin_watch("zz", &rules()).1.err().unwrap(), "not tracked");
    assert_eq!(p.begin_watch("c", &rules()).1.err().unwrap(), "not connected");
    assert_eq!(p.can_list("c").err().unwrap(), "not connected");
    assert!(p.connected("c").is_ok());
    assert_eq!(p.begin_watch("c", &rules()).1.err().unwrap(), "no workload");
    p.on_workload_resolved("w", "c");
    assert!(p.begin_watch("c", &rules()).1.is_ok());
    assert!(p.watcher_started("c", 11));
    assert!(p.watcher_started("c", 12));
    assert!(!p.watcher_started("zz", 13));
    assert_eq!(p.begin_watch("c", &rules()).0, vec![11, 12]);
    p.watcher_started("c", 14);
    assert_eq!(p.unwatch_resources("c").ok().unwrap(), vec![14]);
    p.watcher_started("c", 15);
    assert_eq!(p.connected("c").ok().unwrap(), vec![15]);
    p.watcher_started("c", 16);
    assert_eq!(p.on_workload_unbind("w"), vec![16]);
    assert_eq!(p.unwatch_resources("c").err().unwrap(), "not tracked");
}

#[test]
fn servers_are_named_by_uris() {
    let k = build_kube_config("https://10.0.0.1:6443", "tok").ok().unwrap();
    assert!(k.accept_invalid_certs);
    assert_eq!(k.token, "tok");
    assert_eq!(build_kube_config("not a uri", "tok").err().unwrap(), "invalid api_server_url");
}

// ---- NATS ----

#[test]
fn nats_authentication_has_priorities() {
    let both = config(vec![("nats_token", "t"), ("nats_user", "u"), ("nats_password", "p")]);
    assert!(matches!(build_nats_connect_options(&both).ok().unwrap().auth, NatsAuth::Token(t) if t == "t"));
    let user = config(vec![("nats_user", "u"), ("nats_password", "p"), ("nats_tls_ca", "/ca"), ("nats_tls_cert", "/c"), ("nats_tls_key", "/k")]);
    let o = build_nats_connect_options(&user).ok().unwrap();
    assert!(matches!(o.auth, NatsAuth::UserPassword { .. }));
    assert_eq!(o.root_certificates.as_deref(), Some("/ca"));
    assert_eq!(o.client_certificate, Some(("/c".to_string(), "/k".to_string())));
    assert_eq!(build_nats_connect_options(&config(vec![("nats_jwt", "j")])).err().unwrap(), "nats_jwt requires nats_nkey_seed");
    let bad = config(vec![("nats_jwt", "j"), ("nats_nkey_seed", "x")]);
    assert!(build_nats_connect_options(&bad).err().unwrap().starts_with("invalid nkey seed: "));
    let key = nkeys::KeyPair::new_user().seed().unwrap();
    let good = config(vec![("nats_jwt", "j"), ("nats_nkey_seed", key.as_str()), ("nats_token", "t")]);
    assert!(matches!(build_nats_connect_options(&good).ok().unwrap().auth, NatsAuth::Jwt { jwt, .. } if jwt == "j"));
    assert!(matches!(build_nats_connect_options(&config(vec![])).ok().unwrap().auth, NatsAuth::Open));
}

#[test]
fn every_call_has_its_own_address() {
    let base = "https://open.feishu.cn/open-apis/";
    let b = || "{}".to_string();
    let calls = vec![
        (create_group(b()), Method::Post, "im/v1/chats"),
        (get_group("c"), Method::Get, "im/v1/chats/c"),
        (update_group("c", b()), Method::Put, "im/v1/chats/c"),
        (add_group_members("c", b()), Method::Post, "im/v1/chats/c/members"),
        (recognize_text(b()), Method::Post, "optical_char_recognition/v1/image/basic_recognize"),
        (translate(b()), Method::Post, "translation/v1/text/translate"),
        (create_calendar_event("k", b()), Method::Post, "calendar/v4/calendars/k/events"),
        (list_calendar_events("k", "{}").ok().unwrap(), Method::Get, "calendar/v4/calendars/k/events"),
        (get_calendar_event("k", "e"), Method::Get, "calendar/v4/calendars/k/events/e"),
        (create_card(b()), Method::Post, "cardkit/v1/cards"),
        (feishu_send_mail("m", b()), Method::Post, "mail/v1/user_mailboxes/m/messages"),
        (feishu_list_mails("m", "{\"a\":\"b\"}").ok().unwrap(), Method::Get, "mail/v1/user_mailboxes/m/messages?a=b"),
        (create_document(b()), Method::Post, "docx/v1/documents"),
        (get_document("d"), Method::Get, "docx/v1/documents/d"),
        (create_spreadsheet(b()), Method::Post, "sheets/v3/spreadsheets"),
        (get_spreadsheet("s"), Method::Get, "sheets/v3/spreadsheets/s"),
        (create_bitable(b()), Method::Post, "bitable/v1/apps"),
        (list_bitable_tables("a"), Method::Get, "bitable/v1/apps/a/tables"),
    ];
    for (call, method, path) in calls {
        assert_eq!(call.url, format!("{}{}", base, path));
        assert_eq!(call.method, method);
        assert_eq!(call.body.is_some(), method != Method::Get);
    }
}

#[test]
fn failed_connections_are_described() {
    assert_eq!(imap_connect_error(ConnectStep::Reach, "h:1", "e"), "failed to connect to IMAP server 'h:1': e");
    assert_eq!(imap_connect_error(ConnectStep::ServerName, "h", "e"), "invalid IMAP server name 'h': e");
    assert_eq!(imap_connect_error(ConnectStep::Handshake, "h", "e"), "TLS handshake failed for IMAP: e");
    assert_eq!(imap_connect_error(ConnectStep::Login, "h", "e"), "IMAP login failed: e");
    assert_eq!(cluster_error(CallStep::Configure, "e"), "config: e");
    assert_eq!(cluster_error(CallStep::Connect, "e"), "connect: e");
    assert_eq!(cluster_error(CallStep::Reach, "e"), "unreachable: e");
    assert_eq!(cluster_error(CallStep::Discover, "e"), "discovery: e");
    assert_eq!(nats_connect_error("e"), "failed to connect to NATS: e");
}
