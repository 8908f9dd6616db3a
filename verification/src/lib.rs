//! Decision logic of a set of host plugins for WebAssembly workloads.
#![allow(unused_imports)]

pub mod anthropic_types;
pub mod blobstore;
pub mod cf_d1;
pub mod cf_kv;
pub mod cf_r2;
pub mod codec;
pub mod codex;
pub mod codex_process;
pub mod crontab;
pub mod dingtalk_stream;
pub mod dispatch;
pub mod event_monitor;
pub mod feishu;
pub mod feishu_api;
pub mod http_handler;
pub mod json;
pub mod kv;
pub mod llm_gateway_provider;
pub mod mail;
pub mod nats_utils;
pub mod number;
pub mod openai_types;
pub mod record;
pub mod table;
pub mod task_queue;
pub mod telegram;
pub mod text;
pub mod world;
