use host_plugins::blobstore::CustomBlobstore;
use host_plugins::cf_d1::CloudflareD1;
use host_plugins::cf_kv::CloudflareKeyValue;
use host_plugins::cf_r2::CloudflareR2;
use host_plugins::codex::Codex;
use host_plugins::crontab::Crontab;
use host_plugins::dingtalk_stream::DingTalk;
use host_plugins::dispatch::{next_stage, CallbackStage};
use host_plugins::event_monitor::EventMonitor;
use host_plugins::feishu::Feishu;
use host_plugins::kv::MultiBackendKeyValue;
use host_plugins::llm_gateway_provider::LlmGateway;
use host_plugins::mail::Mail;
use host_plugins::table::{resolve_field, Config, Owned, Table};
use host_plugins::task_queue::TaskQueuePlugin;
use host_plugins::telegram::Telegram;
use host_plugins::world::{bound_config, one, WitInterface};

fn names(list: &Vec<WitInterface>, namespace: &str, package: &str) -> bool {
    list.iter().any(|i| i.namespace == namespace && i.package == package)
}

#[test]
fn lib_test_plugin_id() {
    assert_eq!(CustomBlobstore::new().id(), host_plugins::blobstore::PLUGIN_ID);
    assert_eq!(CloudflareD1::new().id(), host_plugins::cf_d1::PLUGIN_ID);
    assert_eq!(CloudflareKeyValue::new().id(), "wasi-keyvalue-cf");
    assert_eq!(CloudflareR2::new().id(), host_plugins::cf_r2::PLUGIN_ID);
    assert_eq!(Codex::new().id(), host_plugins::codex::PLUGIN_ID);
    assert_eq!(Crontab::new().id(), host_plugins::crontab::PLUGIN_ID);
    assert_eq!(DingTalk::new().id(), host_plugins::dingtalk_stream::PLUGIN_ID);
    assert_eq!(EventMonitor::new().id(), host_plugins::event_monitor::PLUGIN_ID);
    assert_eq!(Feishu::new().id(), host_plugins::feishu::PLUGIN_ID);
    assert_eq!(MultiBackendKeyValue::new().id(), host_plugins::kv::PLUGIN_KEYVALUE_ID);
    assert_eq!(LlmGateway::<f64>::new().id(), host_plugins::llm_gateway_provider::PLUGIN_ID);
    assert_eq!(Mail::new().id(), host_plugins::mail::PLUGIN_ID);
    assert_eq!(TaskQueuePlugin::new().id(), "task-queue");
    assert_eq!(Telegram::new().id(), "telegram");
}

#[test]
fn lib_test_default() {
    assert_eq!(CustomBlobstore::default().id(), host_plugins::blobstore::PLUGIN_ID);
    assert_eq!(CloudflareD1::default().id(), host_plugins::cf_d1::PLUGIN_ID);
    assert_eq!(CloudflareKeyValue::default().id(), "wasi-keyvalue-cf");
    assert_eq!(CloudflareR2::default().id(), host_plugins::cf_r2::PLUGIN_ID);
    assert_eq!(MultiBackendKeyValue::default().id(), host_plugins::kv::PLUGIN_KEYVALUE_ID);
    assert_eq!(LlmGateway::<f64>::default().id(), host_plugins::llm_gateway_provider::PLUGIN_ID);
    assert_eq!(Mail::default().id(), host_plugins::mail::PLUGIN_ID);
}

#[test]
fn lib_test_world() {
    assert!(names(&CustomBlobstore::new().world().exports, "wasi", "blobstore"));
    assert!(names(&CloudflareR2::new().world().imports, "wasi", "blobstore"));
}

#[test]
fn lib_test_world_imports() {
    assert!(names(&CloudflareD1::new().world().exports, "custom", "cf-d1"));
    assert!(names(&CloudflareKeyValue::new().world().imports, "wasi", "keyvalue"));
    assert!(names(&Crontab::new().world().imports, "custom", "crontab"));
    assert!(names(&DingTalk::new().world().imports, "custom", "dingtalk-stream"));
    assert!(names(&EventMonitor::new().world().imports, "custom", "event-monitor"));
    assert!(names(&Feishu::new().world().imports, "custom", "feishu"));
}

#[test]
fn lib_test_world_exports() {
    assert!(names(&Codex::new().world().exports, "custom", "codex"));
    assert!(names(&Crontab::new().world().exports, "custom", "crontab"));
    assert!(names(&DingTalk::new().world().exports, "custom", "dingtalk-stream"));
    assert!(names(&EventMonitor::new().world().exports, "custom", "event-monitor"));
    assert!(names(&Feishu::new().world().exports, "custom", "feishu"));
    assert!(names(&MultiBackendKeyValue::new().world().exports, "wasi", "keyvalue"));
    assert!(names(&LlmGateway::<f64>::new().world().exports, "custom", "llm-gateway"));
}

#[test]
fn worlds_name_interfaces_and_versions() {
    let w = TaskQueuePlugin::new().world();
    assert_eq!(w.imports[0].interfaces, vec!["producer", "task-control", "types"]);
    assert_eq!(w.exports[0].interfaces, vec!["observer", "worker"]);
    assert_eq!(w.exports[0].version, "0.1.0");
    let t = Telegram::new().world();
    assert_eq!(t.imports[0].interfaces, vec!["handler"]);
    assert_eq!(t.exports[0].interfaces, vec!["sender"]);
    assert_eq!(Mail::new().world().exports[0].interfaces, vec!["sender"]);
    assert_eq!(EventMonitor::new().world().imports[0].version, "0.2.0");
}

#[test]
fn a_dispatch_reaches_the_guest_only_without_failures() {
    let mut s = CallbackStage::NewStore;
    for _ in 0..5 {
        s = next_stage(s, true, true);
    }
    assert_eq!(s, CallbackStage::CallGuest);
    assert_eq!(next_stage(s, true, true), CallbackStage::Handled);
    let mut t = CallbackStage::NewStore;
    for i in 0..5 {
        t = next_stage(t, true, i != 2);
    }
    assert_eq!(t, CallbackStage::Abandoned);
    assert_eq!(next_stage(CallbackStage::NewStore, false, true), CallbackStage::InstantiatePre);
}

#[test]
fn tables_keep_one_value_for_each_key() {
    let mut t: Table<u32> = Table::new();
    t.insert("a".to_string(), 1);
    t.insert("b".to_string(), 2);
    t.insert("a".to_string(), 3);
    assert_eq!(t.len(), 2);
    assert_eq!(t.get("a"), Some(&3));
    assert_eq!(t.at(0).0, "a");
    assert_eq!(t.remove("a"), Some(3));
    assert_eq!(t.remove("a"), None);
    assert!(!t.contains("a"));
    assert!(t.contains("b"));
}

#[test]
fn a_workload_leaves_with_all_its_components() {
    let mut t: Table<Owned<u32>> = Table::new();
    t.insert("c1".to_string(), Owned { workload_id: "w1".to_string(), data: 1 });
    t.insert("c2".to_string(), Owned { workload_id: "w2".to_string(), data: 2 });
    t.insert("c3".to_string(), Owned { workload_id: "w1".to_string(), data: 3 });
    assert_eq!(t.remove_workload("w1"), vec![1, 3]);
    assert_eq!(t.len(), 1);
    assert!(t.contains("c2"));
}

#[test]
fn passed_settings_go_before_configured_ones() {
    let mut c: Config = Table::new();
    c.insert("key".to_string(), "configured".to_string());
    assert_eq!(resolve_field(Some("passed".to_string()), &c, "key").unwrap(), "passed");
    assert_eq!(resolve_field(None, &c, "key").unwrap(), "configured");
    assert!(resolve_field(None, &c, "other").is_none());
}

#[test]
fn the_first_interface_of_a_package_brings_the_configuration() {
    let mut a = WitInterface::of("custom", "mail", one("sender"), "0.1.0");
    a.config.insert("smtp-host".to_string(), "first".to_string());
    let mut b = WitInterface::of("custom", "mail", one("sender"), "0.1.0");
    b.config.insert("smtp-host".to_string(), "second".to_string());
    let list = vec![WitInterface::of("wasi", "io", one("streams"), "0.2.0"), a, b];
    assert_eq!(bound_config(&list, "custom", "mail").unwrap().get("smtp-host").unwrap(), "first");
    assert!(bound_config(&list, "custom", "feishu").is_none());
}
