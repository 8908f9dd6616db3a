use host_plugins::blobstore::{clear_error, container_path, creates_on_get, data_slice, delete_one_error, engine_missing, engine_config as blob_engine_config, exists_outcome, info, list_names, not_found_error, object_info, object_path, step_outcome, store_error, BlobEngineConfig, BlobStep, CustomBlobstore, EngineKind, EngineSource as BlobSource, OutgoingValueHandle, StoreStep, StreamObjectNamesHandle};
use host_plugins::cf_d1::{batch_body, column_value_to_json, json_value_to_column_value, read_column, query, query_batch, query_body, query_one, CloudflareD1, ColumnValue, D1ClientHandle, D1Config, D1Error, D1Meta, D1Response, D1ResponseRaw, D1Result, D1ResultRaw, Fetched, QueryError};
use host_plugins::cf_kv::CloudflareKeyValue;
use host_plugins::cf_r2::{extract_config, operator_error, operator_missing, BindAction, CloudflareR2};
use host_plugins::json::{read_value, Json};
use host_plugins::kv::{bucket_error, can_increment_nats, cf_result_to_string, counter_bytes, decode_value, encode_value, engine_config, get, get_cloudflare, get_many, has_key, increment, increment_nats, increment_text, list_page, nats_keys, read_cloudflare, read_counter, set_many_cloudflare, BackendKind, BucketHandle, CounterWrite, EngineSource, KvEngineConfig, MultiBackendKeyValue, NatsEntry, ReadOutcome};
use host_plugins::table::{Config, Table};
use host_plugins::world::{one, WitInterface};

fn config(entries: Vec<(&str, &str)>) -> Config {
    let mut c: Config = Table::new();
    for (k, v) in entries {
        c.insert(k.to_string(), v.to_string());
    }
    c
}

fn interface(package: &str, entries: Vec<(&str, &str)>) -> WitInterface {
    let namespace = if package == "cf-d1" { "custom" } else { "wasi" };
    let mut i = WitInterface::of(namespace, package, one("store"), "0.2.0-draft");
    for (k, v) in entries {
        i.config.insert(k.to_string(), v.to_string());
    }
    i
}

// ---- Key-value ----

#[test]
fn errors_become_text() {
    let ok: Result<u8, std::num::ParseIntError> = Ok(3);
    assert_eq!(cf_result_to_string(ok), Ok(3));
    let err: Result<u8, std::num::ParseIntError> = "x".parse::<u8>();
    assert_eq!(cf_result_to_string(err), Err("invalid digit found in string".to_string()));
}

#[test]
fn keys_carry_the_identifier_of_their_bucket() {
    let b = BucketHandle { kind: BackendKind::OpenDal, identifier: "users".to_string() };
    assert_eq!(b.full_key("42"), "users/42");
    assert_eq!(b.nats_key("42"), "users.42");
    assert_eq!(b.list_path(), "users/");
    let r = BucketHandle { kind: BackendKind::Nats, identifier: String::new() };
    assert_eq!(r.full_key("42"), "42");
    assert_eq!(r.nats_key("42"), "42");
    assert_eq!(r.list_path(), "/");
}

#[test]
fn the_keys_of_a_bucket_are_found_in_a_nats_store() {
    let raw: Vec<String> = vec!["users.1", "users", "other.1", "users.a.b"].into_iter().map(String::from).collect();
    assert_eq!(nats_keys(&raw, "users"), vec!["1", "a.b"]);
    assert_eq!(nats_keys(&raw, ""), raw);
}

#[test]
fn pages_cover_all_keys_once() {
    let keys: Vec<String> = (0..250).map(|i| format!("k{}", i)).collect();
    let mut all = Vec::new();
    let mut cursor = None;
    let mut pages = 0;
    loop {
        let mut p = list_page(&keys, cursor);
        assert!(p.keys.len() <= 100);
        all.append(&mut p.keys);
        pages += 1;
        cursor = p.cursor;
        if cursor.is_none() {
            break;
        }
    }
    assert_eq!(pages, 3);
    assert_eq!(all, keys);
    assert!(list_page(&keys, Some(1000)).keys.is_empty());
    assert!(list_page(&Vec::new(), None).cursor.is_none());
    assert!(list_page(&keys[0..100].to_vec(), None).cursor.is_none());
}

#[test]
fn values_are_text_where_they_can_be() {
    assert_eq!(encode_value(&b"hello world".to_vec()), "hello world");
    assert_eq!(decode_value("hello world"), b"hello world");
    let binary = vec![0u8, 255, 10];
    assert_eq!(encode_value(&binary), "AP8K");
    assert_eq!(decode_value("AP8K"), binary);
    assert_eq!(encode_value(&Vec::new()), "");
    assert!(decode_value("").is_empty());
    // Text that is base64 as well comes back decoded.
    assert_eq!(decode_value(&encode_value(&b"abcd".to_vec())), vec![0x69, 0xb7, 0x1d]);
    assert_eq!(decode_value("grüße"), "grüße".as_bytes());
}

#[test]
fn counters_are_eight_bytes_or_text() {
    assert_eq!(counter_bytes(258), 258u64.to_be_bytes().to_vec());
    assert_eq!(read_counter(&u64::MAX.to_be_bytes().to_vec()), u64::MAX);
    assert_eq!(read_counter(&b"41".to_vec()), 41);
    assert_eq!(read_counter(&b"forty".to_vec()), 0);
    assert_eq!(increment(&None, 5), (5, 5u64.to_be_bytes().to_vec()));
    assert_eq!(increment(&Some(b"41".to_vec()), 1).0, 42);
    assert_eq!(increment(&Some(u64::MAX.to_be_bytes().to_vec()), 9).0, u64::MAX);
    let (n, t) = increment_text(&None, 7);
    assert_eq!((n, t.as_str()), (7, "AAAAAAAAAAc="));
    assert_eq!(increment_text(&Some(t), 1).0, 8);
    assert_eq!(increment_text(&Some("12!".to_string()), 1).0, 1);
    assert_eq!(increment_text(&Some(String::new()), 1).0, 1);
}

#[test]
fn nats_counters_are_written_by_revision() {
    let e = Some(NatsEntry { revision: 4, value: 9u64.to_be_bytes().to_vec() });
    assert!(can_increment_nats(&e, 1));
    let (n, bytes, how) = increment_nats(&e, 1);
    assert_eq!((n, bytes), (10, 10u64.to_be_bytes().to_vec()));
    assert!(matches!(how, CounterWrite::Update(4)));
    assert!(matches!(increment_nats(&None, 3), (3, _, CounterWrite::Put)));
    assert!(!can_increment_nats(&e, u64::MAX));
    assert!(!can_increment_nats(&Some(NatsEntry { revision: 1, value: vec![1, 2] }), 0));
}

#[test]
fn reads_are_reported() {
    assert_eq!(get(ReadOutcome::Found(vec![1])), Ok(Some(vec![1])));
    assert_eq!(get(ReadOutcome::NotFound), Ok(None));
    assert_eq!(get(ReadOutcome::Failed("x".to_string())), Err("x".to_string()));
    assert_eq!(get_cloudflare(Ok("AP8K".to_string())), Ok(Some(vec![0, 255, 10])));
    assert_eq!(get_cloudflare(Ok(String::new())), Ok(Some(vec![])));
    assert_eq!(get_cloudflare(Err("x".to_string())), Err("x".to_string()));
    assert_eq!(has_key(BackendKind::Cloudflare, Err("x".to_string())), Ok(false));
    assert_eq!(has_key(BackendKind::Nats, Err("x".to_string())), Err("x".to_string()));
    let many = get_many(
        vec!["a".to_string(), "b".to_string()],
        vec![read_cloudflare(Ok("hi there".to_string())), read_cloudflare(Err("x".to_string()))],
    );
    assert_eq!(many, vec![Some(("a".to_string(), b"hi there".to_vec())), None]);
    let texts = set_many_cloudflare(&vec![("k".to_string(), vec![1])]);
    assert_eq!(texts, vec![("k".to_string(), "AQ==".to_string())]);
}

#[test]
fn backends_come_from_the_configuration() {
    match engine_config(&config(vec![("root", "/x")])).ok().unwrap() {
        KvEngineConfig::OpenDal { scheme, settings } => {
            assert_eq!(scheme, "memory");
            assert_eq!(settings, vec![("root".to_string(), "/x".to_string())]);
        }
        _ => panic!("expected OpenDAL"),
    }
    match engine_config(&config(vec![("backend", "cloudflare"), ("account_id", "a"), ("namespace_id", "n")])).ok().unwrap() {
        KvEngineConfig::Cloudflare { account_id, api_token, namespace } => {
            assert_eq!((account_id.as_str(), api_token.as_str(), namespace.as_str()), ("a", "", "n"));
        }
        _ => panic!("expected Cloudflare"),
    }
    match engine_config(&config(vec![("backend", "nats")])).ok().unwrap() {
        KvEngineConfig::Nats { url, bucket, .. } => {
            assert_eq!((url.as_str(), bucket.as_str()), ("nats://127.0.0.1:4222", "default"));
        }
        _ => panic!("expected NATS"),
    }
    assert_eq!(
        engine_config(&config(vec![("backend", "nats"), ("nats_user", "u")])).err().unwrap(),
        "nats_user requires nats_password"
    );
    assert_eq!(bucket_error("b", "e"), "failed to open NATS KV bucket 'b': e");
}

#[test]
fn engines_are_made_once() {
    let mut p = MultiBackendKeyValue::new();
    assert_eq!(p.get_or_create_engine("c").err().unwrap(), "No KV config found for component 'c'");
    assert!(p.on_workload_item_bind("c", "w", true, &vec![interface("keyvalue", vec![("root", "data")])]));
    assert!(!p.on_workload_item_bind("d", "w", false, &vec![interface("keyvalue", vec![])]));
    assert!(matches!(p.get_or_create_engine("c"), Ok(EngineSource::Make(_))));
    assert!(p.engine_made("c"));
    assert!(!p.engine_made("c"));
    assert!(matches!(p.get_or_create_engine("c"), Ok(EngineSource::Kept)));
    assert_eq!(p.open("c", BackendKind::OpenDal, "").identifier, "data");
    assert_eq!(p.open("c", BackendKind::OpenDal, "mine").identifier, "mine");
    assert_eq!(p.open("zz", BackendKind::Nats, "").identifier, "");
    p.on_workload_unbind("w");
    assert!(p.get_or_create_engine("c").is_err());
}

#[test]
fn cloudflare_namespaces_belong_to_workloads() {
    let mut p = CloudflareKeyValue::new();
    assert!(p.open("w", "b").err().unwrap().starts_with("No Cloudflare KV config found for workload 'w'. Please configure"));
    assert!(p.on_workload_item_bind(
        "w",
        &vec![interface("keyvalue", vec![("account_id", "a"), ("api_token", "t"), ("namespace", "n")])]
    ));
    let b = p.open("w", "bucket").ok().unwrap();
    assert_eq!((b.namespace.as_str(), b.identifier.as_str()), ("n", "bucket"));
    assert!(p.configs.get("w").unwrap().is_complete());
    assert!(p.on_workload_item_bind("v", &vec![interface("keyvalue", vec![])]));
    assert!(!p.configs.get("v").unwrap().is_complete());
    p.on_workload_unbind("w");
    assert!(p.open("w", "b").is_err());
}

// ---- Blobs ----

#[test]
fn streams_of_names_are_read_and_skipped() {
    let mut s = StreamObjectNamesHandle::over((0..5).map(|i| format!("o{}", i)).collect());
    let (a, end) = s.read_stream_object_names(2);
    assert_eq!((a, end), (vec!["o0".to_string(), "o1".to_string()], false));
    assert_eq!(s.skip_stream_object_names(1), (1, false));
    let (b, end) = s.read_stream_object_names(100);
    assert_eq!((b, end), (vec!["o3".to_string(), "o4".to_string()], true));
    assert_eq!(s.skip_stream_object_names(u64::MAX), (0, true));
    let mut past = StreamObjectNamesHandle { objects: vec!["x".to_string()], position: 9 };
    assert_eq!(past.read_stream_object_names(3), (vec![], true));
    assert_eq!(past.position, 9);
}

#[test]
fn listings_name_objects() {
    let raw: Vec<String> = vec!["a.txt", "dir/", "//", "", "x//"].into_iter().map(String::from).collect();
    assert_eq!(list_names(&raw), vec!["a.txt", "dir", "x"]);
    assert_eq!(container_path("c"), "c/");
    assert_eq!(object_path("c", "o"), "c/o");
}

#[test]
fn data_is_sliced() {
    let d: Vec<u8> = (0..10).collect();
    assert_eq!(data_slice(&d, 2, 5), vec![2, 3, 4]);
    assert_eq!(data_slice(&d, 8, 100), vec![8, 9]);
    assert!(data_slice(&d, 5, 2).is_empty());
    assert_eq!(data_slice(&d, 0, u64::MAX), d);
    let joined: Vec<u8> = [data_slice(&d, 1, 4), data_slice(&d, 4, 7)].concat();
    assert_eq!(joined, data_slice(&d, 1, 7));
}

#[test]
fn values_are_uploaded_once_named() {
    let mut v = OutgoingValueHandle::new_outgoing_value();
    v.write_data("c", "o");
    assert!(v.write_body(&vec![1, 2]));
    assert!(v.write_body(&vec![3]));
    assert!(!v.write_body(&vec![0; 10 * 1024 * 1024 - 2]));
    let u = v.finish().unwrap();
    assert_eq!((u.container.as_str(), u.object.as_str()), ("c", "o"));
    assert_eq!(u.data, vec![1, 2, 3]);
    let mut full = OutgoingValueHandle::new_outgoing_value();
    assert!(full.write_body(&vec![0; 10 * 1024 * 1024]));
    assert!(!full.write_body(&vec![0]));
    assert!(full.write_body(&vec![]));
    assert!(OutgoingValueHandle::new_outgoing_value().finish().is_none());
}

#[test]
fn outcomes_depend_on_the_backend() {
    let failed = || Err("e".to_string());
    assert!(step_outcome(BlobStep::CreateContainer, EngineKind::OpenDal, failed()).is_ok());
    assert_eq!(step_outcome(BlobStep::CreateContainer, EngineKind::Nats, failed()).unwrap_err(), "failed to create container: e");
    assert_eq!(step_outcome(BlobStep::Copy, EngineKind::OpenDal, failed()).unwrap_err(), "failed to copy object: e");
    assert!(step_outcome(BlobStep::Upload, EngineKind::Nats, Ok(())).is_ok());
    assert_eq!(exists_outcome(true, EngineKind::OpenDal, Err("e".to_string())), Ok(false));
    assert_eq!(exists_outcome(false, EngineKind::Nats, Err("e".to_string())), Err("failed to check object: e".to_string()));
    assert!(creates_on_get(EngineKind::Nats, Some(false)));
    assert!(creates_on_get(EngineKind::Nats, None));
    assert!(!creates_on_get(EngineKind::OpenDal, None));
    assert_eq!(store_error(StoreStep::GetStore, "c", "e"), "failed to get object store 'c': e");
    assert_eq!(clear_error("o", "c", "e"), "failed to delete object 'o' in 'c': e");
    assert_eq!(engine_missing("e"), "failed to get engine: e");
    assert_eq!(delete_one_error("o", "e"), "failed to delete object 'o': e");
    assert_eq!(not_found_error("o", "e"), "object 'o' not found: e");
    assert_eq!(info("c").created_at, 0);
    let m = object_info("c", "o", Some(-1), 5);
    assert_eq!((m.created_at, m.size), (u64::MAX, 5));
    assert_eq!(object_info("c", "o", None, 5).created_at, 0);
}

#[test]
fn blob_engines_are_kept() {
    match blob_engine_config(&config(vec![("backend", "s3"), ("bucket", "b")])).ok().unwrap() {
        BlobEngineConfig::OpenDal { scheme, settings } => {
            assert_eq!(scheme, "s3");
            assert_eq!(settings, vec![("bucket".to_string(), "b".to_string())]);
        }
        _ => panic!("expected OpenDAL"),
    }
    let mut p = CustomBlobstore::new();
    assert_eq!(p.get_engine("c").err().unwrap(), "No blobstore config found for component 'c'");
    assert!(p.on_workload_item_bind("c", "w", true, &vec![interface("blobstore", vec![("backend", "nats")])]));
    assert!(matches!(p.get_engine("c"), Ok(BlobSource::Make(BlobEngineConfig::Nats { .. }))));
    p.engine_made("c");
    assert!(matches!(p.get_engine("c"), Ok(BlobSource::Kept)));
    p.on_workload_unbind("w");
    assert!(p.get_engine("c").is_err());
}

#[test]
fn operators_belong_to_workloads() {
    assert_eq!(extract_config(&config(vec![])).err().unwrap(), "missing required config: 'backend'");
    let mut p = CloudflareR2::new();
    assert!(matches!(p.on_workload_item_bind("w", &vec![]), BindAction::Nothing));
    assert!(matches!(p.on_workload_item_bind("w", &vec![interface("blobstore", vec![("backend", "")])]), BindAction::Nothing));
    let i = || vec![interface("blobstore", vec![("backend", "s3")])];
    assert!(matches!(p.on_workload_item_bind("w", &i()), BindAction::Make(c) if c.scheme == "s3"));
    p.operator_made("w");
    assert!(matches!(p.on_workload_item_bind("w", &i()), BindAction::Kept));
    assert!(p.get_operator("w").is_ok());
    p.on_workload_unbind("w");
    assert_eq!(p.get_operator("w").err().unwrap(), "No operator found for workload 'w'");
    assert_eq!(operator_error("x", true, "e"), "unknown backend 'x': e");
    assert_eq!(operator_error("x", false, "e"), "failed to create OpenDAL operator for backend 'x': e");
    assert_eq!(operator_missing("e"), "failed to get operator: e");
}

// ---- SQL ----

#[test]
fn test_json_value_to_column_value() {
    assert!(matches!(json_value_to_column_value(&read_value("null")), ColumnValue::Null));
    assert!(matches!(json_value_to_column_value(&read_value("true")), ColumnValue::Integer(1)));
    assert!(matches!(json_value_to_column_value(&read_value("42")), ColumnValue::Integer(42)));
    assert!(matches!(json_value_to_column_value(&read_value("3.14")), ColumnValue::Real(_)));
    assert!(matches!(json_value_to_column_value(&read_value("\"hello\"")), ColumnValue::Text(s) if s == "hello"));
    assert!(matches!(json_value_to_column_value(&read_value("18446744073709551615")), ColumnValue::Real(t) if t == "18446744073709551615"));
    assert!(matches!(json_value_to_column_value(&read_value("[1, 257, -1, \"x\"]")), ColumnValue::Blob(b) if b == vec![1, 1]));
    assert!(matches!(json_value_to_column_value(&read_value("{ \"a\": [2, null] }")), ColumnValue::Text(s) if s == "{\"a\":[2,null]}"));
    assert!(matches!(json_value_to_column_value(&read_value("{\"b\":1,\"a\":2}")), ColumnValue::Text(s) if s == "{\"b\":1,\"a\":2}"));
}

#[test]
fn test_column_value_to_json() {
    assert_eq!(column_value_to_json(&ColumnValue::Null), "null");
    assert_eq!(column_value_to_json(&ColumnValue::Integer(42)), "42");
    assert_eq!(column_value_to_json(&ColumnValue::Text("hello".to_string())), "\"hello\"");
    assert_eq!(column_value_to_json(&ColumnValue::Blob(vec![0, 255])), "[0,255]");
    assert_eq!(column_value_to_json(&ColumnValue::Real("1.5".to_string())), "1.5");
    assert_eq!(column_value_to_json(&ColumnValue::Integer(i64::MIN)), i64::MIN.to_string());
}

#[test]
fn requests_name_the_database() {
    let h = D1ClientHandle { account_id: "acc".to_string(), api_token: "tok".to_string(), database_id: "db".to_string() };
    assert_eq!(h.query_url(), "https://api.cloudflare.com/client/v4/accounts/acc/d1/database/db/query");
    assert_eq!(h.batch_url(), "https://api.cloudflare.com/client/v4/accounts/acc/d1/database/db/raw");
    assert_eq!(h.authorization(), "Bearer tok");
    assert_eq!(query_body("SELECT 1", &vec![]), "{\"sql\":\"SELECT 1\"}");
    assert_eq!(
        query_body("SELECT ?", &vec![ColumnValue::Integer(1), ColumnValue::Null]),
        "{\"sql\":\"SELECT ?\",\"params\":[1,null]}"
    );
    assert_eq!(batch_body("A; B"), "{\"sql\":\"A; B\"}");
}

fn row(entries: Vec<(&str, &str)>) -> Vec<(String, Json)> {
    entries.into_iter().map(|(k, v)| (k.to_string(), read_value(v))).collect()
}

#[test]
fn results_keep_columns_and_rows() {
    let response = || Fetched::Parsed(D1Response {
        result: vec![D1Result {
            results: vec![row(vec![("id", "1"), ("name", "\"a\"")]), row(vec![("id", "2"), ("name", "null")])],
            meta: Some(D1Meta { changes: Some(3), last_row_id: Some(9) }),
        }],
        success: true,
        errors: vec![],
    });
    let q = query(response()).unwrap();
    assert_eq!(q.columns.iter().map(|c| c.name.as_str()).collect::<Vec<_>>(), vec!["id", "name"]);
    assert_eq!(q.rows.len(), 2);
    assert!(matches!(q.rows[1].values[0], ColumnValue::Integer(2)));
    assert_eq!((q.rows_affected, q.last_insert_rowid), (3, Some(9)));
    let one = query_one(response()).unwrap().unwrap();
    assert!(matches!(&one.values[1], ColumnValue::Text(s) if s == "a"));
    let empty = query(Fetched::Parsed(D1Response { result: vec![], success: true, errors: vec![] })).unwrap();
    assert!(empty.rows.is_empty() && empty.rows_affected == 0);
}

#[test]
fn failed_queries_are_reported() {
    let failed = |errors| Fetched::Parsed(D1Response { result: vec![], success: false, errors });
    assert!(matches!(query(failed(vec![])), Err(QueryError::DatabaseError(m)) if m == "Unknown D1 error"));
    let e = D1Error { code: Some(-7), message: "bad".to_string() };
    assert!(matches!(query(failed(vec![e])), Err(QueryError::DatabaseError(m)) if m == "-7: bad"));
    let e = D1Error { code: None, message: "bad".to_string() };
    assert!(matches!(query_one(failed(vec![e])), Err(QueryError::DatabaseError(m)) if m == "0: bad"));
    assert!(matches!(query(Fetched::SendFailed("x".to_string())), Err(QueryError::ConnectionError(m)) if m == "HTTP request failed: x"));
    assert!(matches!(query(Fetched::ReadFailed("x".to_string())), Err(QueryError::Unexpected(m)) if m == "Read HTTP response failed: x"));
    assert!(matches!(query_batch(Fetched::ParseFailed("x".to_string())), Err(QueryError::Unexpected(m)) if m == "Failed to parse response: x"));
}

#[test]
fn batches_have_a_result_for_each_statement() {
    let raw = D1ResponseRaw {
        result: vec![
            D1ResultRaw { columns: vec!["n".to_string()], rows: vec![vec![read_value("1")], vec![Json::Real("0.1234567890123456789".to_string())]], meta: None },
            D1ResultRaw { columns: vec![], rows: vec![], meta: Some(D1Meta { changes: None, last_row_id: None }) },
        ],
        success: true,
        errors: vec![],
    };
    let r = query_batch(Fetched::Parsed(raw)).unwrap();
    assert_eq!(r.len(), 2);
    assert_eq!(r[0].columns[0].name, "n");
    assert!(matches!(&r[0].rows[1].values[0], ColumnValue::Real(t) if t == "0.1234567890123456789"));
}

#[test]
fn clients_of_the_database_are_configured() {
    let mut p = CloudflareD1::new();
    assert_eq!(p.new_client("c", None).err().unwrap(), "component not tracked");
    assert!(p.on_workload_item_bind("c", "w", true, &vec![interface("cf-d1", vec![("account_id", "a")])]));
    assert_eq!(p.new_client("c", None).err().unwrap(), "missing api_token: provide via constructor or interface config");
    let d = D1Config { account_id: "x".to_string(), api_token: "y".to_string(), database_id: "z".to_string() };
    let h = p.new_client("c", Some(d)).ok().unwrap();
    assert_eq!((h.account_id.as_str(), h.api_token.as_str(), h.database_id.as_str()), ("x", "y", "z"));
    p.on_workload_unbind("w");
    assert!(p.new_client("c", None).is_err());
}

#[test]
fn columns_read_back_as_they_were_written() {
    for v in [
        ColumnValue::Null,
        ColumnValue::Integer(i64::MIN),
        ColumnValue::Integer(-1),
        ColumnValue::Integer(0),
        ColumnValue::Integer(i64::MAX),
        ColumnValue::Real("1.5".to_string()),
        ColumnValue::Real("2.0".to_string()),
        ColumnValue::Text("null \"x\"".to_string()),
        ColumnValue::Blob(vec![]),
        ColumnValue::Blob(vec![0, 7, 255]),
    ] {
        assert_eq!(format!("{:?}", read_column(&column_value_to_json(&v))), format!("{:?}", v));
    }
}
