//! Key-value buckets over several backends: the keys, values, pages and counters of a bucket, and
//! which backend a configuration asks for.
use vstd::prelude::*;
use vstd::utf8::{encode_utf8, is_ascii_chars, is_ascii_chars_encode_utf8};
use crate::codec::{base64_bytes, base64_text, decode_base64, encode_base64};
use crate::nats_utils::{auth_of, build_nats_connect_options, certificate_of, configured_seed_error, pair_view, NatsAuthView, NatsOptions};
use crate::number::{parse_u64, parsed_unsigned};
use crate::table::{config_get, lemma_put, lookup, outside_workload, put_at, setting, Config, Owned, Table, Tracker};
use crate::text::{after_prefix, cat2, cat3, cat4, from_utf8_lossy, lossy_text, opt_view, same, starts_with, views};
use crate::world::{bound_config, first_of_package, three, WitInterface, WitWorld};

verus! {

pub const PLUGIN_KEYVALUE_ID: &'static str = "wasi-keyvalue-multi-backend";

/// How many keys a page holds.
pub const PAGE_SIZE: usize = 100;

/// A result with the error as text.
pub fn cf_result_to_string<T, E: std::fmt::Display>(result: Result<T, E>) -> (r: Result<T, String>)
    ensures
        match result {
            Ok(v) => r == Ok::<T, String>(v),
            Err(e) => r is Err && vstd::string::to_string_from_display_ensures::<E>(&e, r->Err_0),
        },
{
    match result {
        Ok(v) => Ok(v),
        Err(e) => Err(e.to_string()),
    }
}

// ---- Backends ----

#[derive(Clone, Copy, Debug, PartialEq, Eq, Structural)]
pub enum BackendKind {
    Cloudflare,
    Nats,
    OpenDal,
}

/// What a backend is made from.
pub enum KvEngineConfig {
    Cloudflare { account_id: String, api_token: String, namespace: String },
    Nats { url: String, bucket: String, options: NatsOptions },
    /// The settings besides the name of the backend.
    OpenDal { scheme: String, settings: Vec<(String, String)> },
}

pub open spec fn backend_kind(name: Seq<char>) -> BackendKind {
    if name == "cloudflare"@ {
        BackendKind::Cloudflare
    } else if name == "nats"@ {
        BackendKind::Nats
    } else {
        BackendKind::OpenDal
    }
}

pub open spec fn setting_or(m: Map<Seq<char>, String>, key: Seq<char>, other: Seq<char>) -> Seq<char> {
    match setting(m, key) {
        Some(t) => t,
        None => other,
    }
}

fn config_or(config: &Config, key: &str, other: &str) -> (r: String)
    ensures
        r@ == setting_or(config@, key@, other@),
{
    match config_get(config, key) {
        Some(t) => t,
        None => other.to_owned(),
    }
}

/// The entries of a configuration besides the one under a key.
pub open spec fn entries_but(p: Seq<(Seq<char>, String)>, key: Seq<char>) -> Seq<
    (Seq<char>, Seq<char>),
>
    decreases p.len(),
{
    if p.len() == 0 {
        Seq::<(Seq<char>, Seq<char>)>::empty()
    } else if p.last().0 == key {
        entries_but(p.drop_last(), key)
    } else {
        entries_but(p.drop_last(), key).push((p.last().0, p.last().1@))
    }
}

/// The entries of a configuration besides the one under a key.
pub fn settings_without(config: &Config, key: &str) -> (r: Vec<(String, String)>)
    ensures
        crate::json::member_views(r@) == entries_but(config.pairs(), key@),
{
    let mut out = crate::json::new_members();
    let mut i: usize = 0;
    let ghost pairs = config.pairs();
    assert(crate::json::member_views(out@) =~= entries_but(pairs.take(0), key@));
    while i < config.len()
        invariant
            pairs == config.pairs(),
            i <= pairs.len(),
            crate::json::member_views(out@) == entries_but(pairs.take(i as int), key@),
        decreases pairs.len() - i,
    {
        assert(pairs.take(i + 1).drop_last() == pairs.take(i as int));
        let (k, v) = config.at(i);
        if !same(k, key) {
            crate::json::push_member(&mut out, k, v.clone());
        }
        i = i + 1;
    }
    assert(pairs.take(pairs.len() as int) == pairs);
    out
}

/// `e` is the backend that a configuration asks for: `memory` where it names none.
pub open spec fn engine_of(e: KvEngineConfig, c: Config) -> bool {
    let m = c@;
    let backend = setting_or(m, "backend"@, "memory"@);
    match backend_kind(backend) {
        BackendKind::Cloudflare => match e {
            KvEngineConfig::Cloudflare { account_id, api_token, namespace } => account_id@
                == setting_or(m, "account_id"@, ""@) && api_token@ == setting_or(
                m,
                "api_token"@,
                ""@,
            ) && namespace@ == setting_or(m, "namespace_id"@, ""@),
            _ => false,
        },
        BackendKind::Nats => match e {
            KvEngineConfig::Nats { url, bucket, options } => url@ == setting_or(
                m,
                "nats_url"@,
                "nats://127.0.0.1:4222"@,
            ) && bucket@ == setting_or(m, "bucket"@, "default"@) && auth_of(
                m,
                configured_seed_error(m),
            ) == Ok::<NatsAuthView, Seq<char>>(options.auth@) && opt_view(
                options.root_certificates,
            ) == setting(m, "nats_tls_ca"@) && pair_view(options.client_certificate)
                == certificate_of(m),
            _ => false,
        },
        BackendKind::OpenDal => match e {
            KvEngineConfig::OpenDal { scheme, settings } => scheme@ == backend
                && crate::json::member_views(settings@) == entries_but(c.pairs(), "backend"@),
            _ => false,
        },
    }
}

/// Why no backend can be made from a configuration.
pub open spec fn engine_error(m: Map<Seq<char>, String>) -> Option<Seq<char>> {
    if backend_kind(setting_or(m, "backend"@, "memory"@)) == BackendKind::Nats {
        match auth_of(m, configured_seed_error(m)) {
            Ok(_) => None,
            Err(e) => Some(e),
        }
    } else {
        None
    }
}

fn kind_of(backend: &str) -> (r: BackendKind)
    ensures
        r == backend_kind(backend@),
{
    if same(backend, "cloudflare") {
        BackendKind::Cloudflare
    } else if same(backend, "nats") {
        BackendKind::Nats
    } else {
        BackendKind::OpenDal
    }
}

/// The backend that a configuration asks for.
pub fn engine_config(config: &Config) -> (r: Result<KvEngineConfig, String>)
    ensures
        match r {
            Ok(e) => engine_error(config@) is None && engine_of(e, *config),
            Err(e) => engine_error(config@) == Some(e@),
        },
{
    let backend = config_or(config, "backend", "memory");
    match kind_of(&backend) {
        BackendKind::Cloudflare => Ok(
            KvEngineConfig::Cloudflare {
                account_id: config_or(config, "account_id", ""),
                api_token: config_or(config, "api_token", ""),
                namespace: config_or(config, "namespace_id", ""),
            },
        ),
        BackendKind::Nats => match build_nats_connect_options(config) {
            Err(e) => Err(e),
            Ok(options) => Ok(
                KvEngineConfig::Nats {
                    url: config_or(config, "nats_url", "nats://127.0.0.1:4222"),
                    bucket: config_or(config, "bucket", "default"),
                    options,
                },
            ),
        },
        BackendKind::OpenDal => {
            let settings = settings_without(config, "backend");
            Ok(KvEngineConfig::OpenDal { scheme: backend, settings })
        },
    }
}

// ---- Keys ----

/// Why a bucket of NATS could not be opened.
pub fn bucket_error(bucket: &str, message: &str) -> (r: String)
    ensures
        r@ == "failed to open NATS KV bucket '"@ + bucket@ + "': "@ + message@,
{
    cat4("failed to open NATS KV bucket '", bucket, "': ", message)
}

/// A bucket of a backend.
pub struct BucketHandle {
    pub kind: BackendKind,
    pub identifier: String,
}

/// The key under which an entry of a bucket is stored, with a separator behind the identifier.
pub open spec fn stored_key(identifier: Seq<char>, sep: Seq<char>, key: Seq<char>) -> Seq<char> {
    if identifier.len() == 0 {
        key
    } else {
        identifier + sep + key
    }
}

impl BucketHandle {
    /// The key with the identifier and a slash before it.
    pub fn full_key(&self, key: &str) -> (r: String)
        ensures
            r@ == stored_key(self.identifier@, "/"@, key@),
    {
        if self.identifier.as_str().is_empty() {
            key.to_owned()
        } else {
            cat3(&self.identifier, "/", key)
        }
    }

    /// The key with the identifier and a full stop before it.
    pub fn nats_key(&self, key: &str) -> (r: String)
        ensures
            r@ == stored_key(self.identifier@, "."@, key@),
    {
        if self.identifier.as_str().is_empty() {
            key.to_owned()
        } else {
            cat3(&self.identifier, ".", key)
        }
    }

    /// The path that lists the bucket.
    pub fn list_path(&self) -> (r: String)
        ensures
            r@ == if self.identifier@.len() == 0 {
                "/"@
            } else {
                self.identifier@ + "/"@
            },
    {
        if self.identifier.as_str().is_empty() {
            "/".to_owned()
        } else {
            cat2(&self.identifier, "/")
        }
    }
}

/// The bucket that is opened: the one that the guest names, else the one that is configured.
pub open spec fn bucket_id(identifier: Seq<char>, c: Option<Map<Seq<char>, String>>) -> Seq<char> {
    match c {
        Some(m) => if identifier.len() == 0 {
            match backend_kind(setting_or(m, "backend"@, ""@)) {
                BackendKind::Cloudflare => setting_or(m, "namespace_id"@, ""@),
                BackendKind::Nats => setting_or(m, "bucket"@, ""@),
                BackendKind::OpenDal => setting_or(m, "root"@, ""@),
            }
        } else {
            identifier
        },
        None => identifier,
    }
}

fn resolve_bucket(identifier: &str, config: &Config) -> (r: String)
    ensures
        r@ == bucket_id(identifier@, Some(config@)),
{
    if !identifier.is_empty() {
        return identifier.to_owned();
    }
    let backend = config_or(config, "backend", "");
    match kind_of(&backend) {
        BackendKind::Cloudflare => config_or(config, "namespace_id", ""),
        BackendKind::Nats => config_or(config, "bucket", ""),
        BackendKind::OpenDal => config_or(config, "root", ""),
    }
}

/// The keys of a bucket among the keys of a NATS store, without the identifier before them.
pub open spec fn keys_in_bucket(raw: Seq<Seq<char>>, identifier: Seq<char>) -> Seq<Seq<char>>
    decreases raw.len(),
{
    if raw.len() == 0 {
        raw
    } else if identifier.len() == 0 {
        keys_in_bucket(raw.drop_last(), identifier).push(raw.last())
    } else if (identifier + "."@).is_prefix_of(raw.last()) {
        keys_in_bucket(raw.drop_last(), identifier).push(
            raw.last().skip((identifier + "."@).len() as int),
        )
    } else {
        keys_in_bucket(raw.drop_last(), identifier)
    }
}

/// The keys of a bucket among the keys of a NATS store.
pub fn nats_keys(raw: &Vec<String>, identifier: &str) -> (r: Vec<String>)
    ensures
        views(r@) == keys_in_bucket(views(raw@), identifier@),
{
    let ghost rv = views(raw@);
    let prefix = cat2(identifier, ".");
    let mut out: Vec<String> = Vec::new();
    let mut i: usize = 0;
    assert(views(out@) =~= keys_in_bucket(rv.take(0), identifier@));
    while i < raw.len()
        invariant
            i <= raw@.len(),
            rv == views(raw@),
            prefix@ == identifier@ + "."@,
            views(out@) == keys_in_bucket(rv.take(i as int), identifier@),
        decreases raw@.len() - i,
    {
        assert(rv.take(i + 1).drop_last() == rv.take(i as int));
        assert(rv[i as int] == raw@[i as int]@);
        let ghost before = out@;
        if identifier.is_empty() {
            out.push(raw[i].clone());
            assert(views(out@) =~= views(before).push(raw@[i as int]@));
        } else if starts_with(&raw[i], &prefix) {
            let k = after_prefix(&raw[i], &prefix);
            out.push(k);
            assert(views(out@) =~= views(before).push(k@));
        }
        i = i + 1;
    }
    assert(rv.take(rv.len() as int) == rv);
    out
}

// ---- Pages ----

pub struct KeyResponse {
    pub keys: Vec<String>,
    pub cursor: Option<u64>,
}

pub open spec fn page_start(cursor: Option<u64>) -> int {
    match cursor {
        Some(c) => c as int,
        None => 0,
    }
}

pub open spec fn page_end(start: int, len: int) -> int {
    if start + 100 < len {
        start + 100
    } else {
        len
    }
}

/// The keys of the page that starts at a place.
pub open spec fn page_keys<T>(keys: Seq<T>, start: int) -> Seq<T> {
    if start <= page_end(start, keys.len() as int) {
        keys.subrange(start, page_end(start, keys.len() as int))
    } else {
        Seq::<T>::empty()
    }
}

/// Where the page behind the one at a place starts; none where there is no more.
pub open spec fn page_next(start: int, len: int) -> Option<int> {
    if page_end(start, len) < len {
        Some(page_end(start, len))
    } else {
        None
    }
}

pub open spec fn cursor_view(c: Option<u64>) -> Option<int> {
    match c {
        Some(n) => Some(n as int),
        None => None,
    }
}

/// The page of keys at a cursor.
pub fn list_page(keys: &Vec<String>, cursor: Option<u64>) -> (r: KeyResponse)
    requires
        page_start(cursor) + 100 <= usize::MAX,
    ensures
        r.keys@ == page_keys(keys@, page_start(cursor)),
        cursor_view(r.cursor) == page_next(page_start(cursor), keys@.len() as int),
{
    let start: usize = match cursor {
        Some(c) => c as usize,
        None => 0,
    };
    let n: usize = keys.len();
    let end: usize = if start + PAGE_SIZE < n {
        start + PAGE_SIZE
    } else {
        n
    };
    let mut page: Vec<String> = Vec::new();
    if start <= end {
        let mut i: usize = start;
        while i < end
            invariant
                start <= i <= end,
                end <= keys@.len(),
                page@ == keys@.subrange(start as int, i as int),
            decreases end - i,
        {
            page.push(keys[i].clone());
            i = i + 1;
            assert(keys@.subrange(start as int, i as int) =~= keys@.subrange(
                start as int,
                i - 1,
            ).push(keys@[i - 1]));
        }
    }
    assert(page@ =~= page_keys(keys@, start as int));
    let cursor = if end < n {
        Some(end as u64)
    } else {
        None
    };
    KeyResponse { keys: page, cursor }
}

// ---- Values ----

/// Text that a Cloudflare namespace holds as it is: printable ASCII.
pub open spec fn printable(v: Seq<u8>) -> bool {
    forall|i: int| 0 <= i < v.len() ==> 32 <= #[trigger] v[i] < 128
}

pub open spec fn ascii_text(v: Seq<u8>) -> Seq<char> {
    v.map_values(|b: u8| b as char)
}

/// A value as a Cloudflare namespace holds it: printable text as it is, other bytes in base64.
pub open spec fn value_text(v: Seq<u8>) -> Seq<char> {
    if printable(v) {
        ascii_text(v)
    } else {
        base64_text(v)
    }
}

/// The value that a Cloudflare namespace holds as a text: what is base64 is decoded.
pub open spec fn text_bytes(t: Seq<char>) -> Seq<u8> {
    if t.len() == 0 {
        Seq::<u8>::empty()
    } else {
        match base64_bytes(t) {
            Some(b) => b,
            None => encode_utf8(t),
        }
    }
}

proof fn lemma_ascii_bytes(v: Seq<u8>)
    requires
        printable(v),
    ensures
        encode_utf8(ascii_text(v)) == v,
{
    let t = ascii_text(v);
    assert(is_ascii_chars(t)) by {
        assert forall|i: int| 0 <= i < t.len() implies t[i] as nat <= 0x7f by {
            assert(v[i] < 128);
            assert(t[i] == v[i] as char);
        }
    }
    is_ascii_chars_encode_utf8(t);
    assert forall|i: int| 0 <= i < v.len() implies #[trigger] encode_utf8(t)[i] == v[i] by {
        assert(v[i] < 128);
        assert(t[i] == v[i] as char);
    }
    assert(encode_utf8(t) =~= v);
}

/// Whether a value comes back as something else: printable text that also is base64 is decoded when
/// it is read.
pub open spec fn ambiguous(v: Seq<u8>) -> bool {
    printable(v) && v.len() > 0 && base64_bytes(ascii_text(v)) is Some
}

/// Writes a value for a Cloudflare namespace. Reading it gives the value again, but for printable
/// text that also is base64.
pub fn encode_value(value: &Vec<u8>) -> (r: String)
    ensures
        r@ == value_text(value@),
        !ambiguous(value@) ==> text_bytes(r@) == value@,
{
    proof {
        if printable(value@) {
            lemma_ascii_bytes(value@);
        }
    }
    let mut i: usize = 0;
    let mut out = String::new();
    assert(ascii_text(value@.take(0)) =~= Seq::<char>::empty());
    while i < value.len()
        invariant
            i <= value@.len(),
            forall|k: int| 0 <= k < i ==> 32 <= #[trigger] value@[k] < 128,
            out@ == ascii_text(value@.take(i as int)),
        decreases value@.len() - i,
    {
        let b: u8 = value[i];
        if b < 32 || b >= 128 {
            assert(!printable(value@));
            let r = encode_base64(value.as_slice());
            assert(text_bytes(r@) == value@);
            return r;
        }
        out.push(b as char);
        assert(ascii_text(value@.take(i + 1)) =~= ascii_text(value@.take(i as int)).push(b as char));
        i = i + 1;
    }
    assert(value@.take(value@.len() as int) == value@);
    assert(value@.len() == 0 ==> value@ =~= Seq::<u8>::empty());
    out
}

/// Reads a value of a Cloudflare namespace.
pub fn decode_value(text: &str) -> (r: Vec<u8>)
    ensures
        r@ == text_bytes(text@),
{
    if text.is_empty() {
        return Vec::new();
    }
    match decode_base64(text) {
        Some(b) => b,
        None => text.as_bytes_vec(),
    }
}

/// What became of reading a key.
pub enum ReadOutcome {
    Found(Vec<u8>),
    NotFound,
    Failed(String),
}

/// What the guest is told of a key.
pub fn get(outcome: ReadOutcome) -> (r: Result<Option<Vec<u8>>, String>)
    ensures
        r == match outcome {
            ReadOutcome::Found(b) => Ok::<Option<Vec<u8>>, String>(Some(b)),
            ReadOutcome::NotFound => Ok::<Option<Vec<u8>>, String>(None),
            ReadOutcome::Failed(e) => Err::<Option<Vec<u8>>, String>(e),
        },
{
    match outcome {
        ReadOutcome::Found(b) => Ok(Some(b)),
        ReadOutcome::NotFound => Ok(None),
        ReadOutcome::Failed(e) => Err(e),
    }
}

/// What the guest is told of a key of a Cloudflare namespace.
pub fn get_cloudflare(fetched: Result<String, String>) -> (r: Result<Option<Vec<u8>>, String>)
    ensures
        match fetched {
            Ok(t) => r is Ok && r->Ok_0 is Some && r->Ok_0->0@ == text_bytes(t@),
            Err(e) => r == Err::<Option<Vec<u8>>, String>(e),
        },
{
    match fetched {
        Ok(t) => Ok(Some(decode_value(&t))),
        Err(e) => Err(e),
    }
}

/// Whether a key is there: a failed check counts as absence, but not with NATS.
pub fn has_key(kind: BackendKind, found: Result<bool, String>) -> (r: Result<bool, String>)
    ensures
        match found {
            Ok(b) => r == Ok::<bool, String>(b),
            Err(e) => if kind == BackendKind::Nats {
                r == Err::<bool, String>(e)
            } else {
                r == Ok::<bool, String>(false)
            },
        },
{
    match found {
        Ok(b) => Ok(b),
        Err(e) => match kind {
            BackendKind::Nats => Err(e),
            _ => Ok(false),
        },
    }
}

/// What the guest is told of several keys: those that could not be read are left open.
pub fn get_many(keys: Vec<String>, outcomes: Vec<ReadOutcome>) -> (r: Vec<Option<(String, Vec<u8>)>>)
    requires
        keys@.len() == outcomes@.len(),
    ensures
        r@.len() == keys@.len(),
        forall|i: int|
            0 <= i < r@.len() ==> (#[trigger] r@[i]) == match outcomes@[i] {
                ReadOutcome::Found(b) => Some((keys@[i], b)),
                _ => None::<(String, Vec<u8>)>,
            },
{
    let ghost ks = keys@;
    let ghost os = outcomes@;
    let mut keys = keys;
    let mut outcomes = outcomes;
    let n: usize = keys.len();
    let mut out: Vec<Option<(String, Vec<u8>)>> = Vec::new();
    let mut i: usize = 0;
    assert(ks.skip(0) == ks);
    assert(os.skip(0) == os);
    while i < n
        invariant
            i <= n,
            n == ks.len(),
            n == os.len(),
            keys@ == ks.skip(i as int),
            outcomes@ == os.skip(i as int),
            out@.len() == i,
            forall|k: int|
                0 <= k < i ==> (#[trigger] out@[k]) == match os[k] {
                    ReadOutcome::Found(b) => Some((ks[k], b)),
                    _ => None::<(String, Vec<u8>)>,
                },
        decreases n - i,
    {
        let key = keys.remove(0);
        let outcome = outcomes.remove(0);
        assert(key == ks[i as int] && outcome == os[i as int]);
        assert(keys@ =~= ks.skip(i + 1));
        assert(outcomes@ =~= os.skip(i + 1));
        match outcome {
            ReadOutcome::Found(b) => {
                out.push(Some((key, b)));
            },
            _ => {
                out.push(None);
            },
        }
        i = i + 1;
    }
    out
}

/// What became of reading a key of a Cloudflare namespace.
pub fn read_cloudflare(fetched: Result<String, String>) -> (r: ReadOutcome)
    ensures
        match fetched {
            Ok(t) => r is Found && r->Found_0@ == text_bytes(t@),
            Err(e) => r == ReadOutcome::Failed(e),
        },
{
    match fetched {
        Ok(t) => ReadOutcome::Found(decode_value(&t)),
        Err(e) => ReadOutcome::Failed(e),
    }
}

/// The keys and texts that several values are written under in a Cloudflare namespace.
pub fn set_many_cloudflare(key_values: &Vec<(String, Vec<u8>)>) -> (r: Vec<(String, String)>)
    ensures
        r@.len() == key_values@.len(),
        forall|i: int|
            0 <= i < r@.len() ==> (#[trigger] r@[i]).0@ == key_values@[i].0@ && r@[i].1@
                == value_text(key_values@[i].1@),
{
    let mut out: Vec<(String, String)> = Vec::new();
    let mut i: usize = 0;
    while i < key_values.len()
        invariant
            i <= key_values@.len(),
            out@.len() == i,
            forall|k: int|
                0 <= k < i ==> (#[trigger] out@[k]).0@ == key_values@[k].0@ && out@[k].1@
                    == value_text(key_values@[k].1@),
        decreases key_values@.len() - i,
    {
        let text = encode_value(&key_values[i].1);
        out.push((key_values[i].0.clone(), text));
        i = i + 1;
    }
    out
}

// ---- Counters ----

/// The number that bytes stand for, the most significant one first.
pub open spec fn be_value(b: Seq<u8>) -> nat
    decreases b.len(),
{
    if b.len() == 0 {
        0
    } else {
        be_value(b.drop_last()) * 256 + b.last() as nat
    }
}

/// A number in `k` bytes, the most significant one first.
pub open spec fn be_seq(n: nat, k: nat) -> Seq<u8>
    decreases k,
{
    if k == 0 {
        Seq::<u8>::empty()
    } else {
        be_seq(n / 256, (k - 1) as nat).push((n % 256) as u8)
    }
}

pub open spec fn pow256(k: nat) -> nat
    decreases k,
{
    if k == 0 {
        1
    } else {
        256 * pow256((k - 1) as nat)
    }
}

proof fn lemma_be_seq(n: nat, k: nat)
    requires
        n < pow256(k),
    ensures
        be_seq(n, k).len() == k,
        be_value(be_seq(n, k)) == n,
    decreases k,
{
    if k > 0 {
        assert(n / 256 < pow256((k - 1) as nat)) by (nonlinear_arith)
            requires
                n < 256 * pow256((k - 1) as nat),
        ;
        lemma_be_seq(n / 256, (k - 1) as nat);
        assert(be_seq(n, k).drop_last() =~= be_seq(n / 256, (k - 1) as nat));
        assert((n / 256) * 256 + n % 256 == n) by (nonlinear_arith);
    }
}

proof fn lemma_pow256()
    ensures
        pow256(8) == 0x1_0000_0000_0000_0000,
        forall|k: nat| k < 8 ==> #[trigger] pow256(k) <= 0x100_0000_0000_0000,
{
    reveal_with_fuel(pow256, 9);
    assert forall|k: nat| k < 8 implies #[trigger] pow256(k) <= 0x100_0000_0000_0000 by {
        assert(k == 0 || k == 1 || k == 2 || k == 3 || k == 4 || k == 5 || k == 6 || k == 7);
    }
}

fn write_be(n: u64, k: u8) -> (r: Vec<u8>)
    ensures
        r@ == be_seq(n as nat, k as nat),
    decreases k,
{
    if k == 0 {
        Vec::new()
    } else {
        let mut r = write_be(n / 256, k - 1);
        r.push((n % 256) as u8);
        r
    }
}

/// A counter as it is stored: eight bytes, the most significant one first.
pub fn counter_bytes(n: u64) -> (r: Vec<u8>)
    ensures
        r@ == be_seq(n as nat, 8),
        r@.len() == 8,
        be_value(r@) == n,
{
    proof {
        lemma_pow256();
        lemma_be_seq(n as nat, 8);
    }
    write_be(n, 8)
}

fn read_be(b: &Vec<u8>) -> (r: u64)
    requires
        b@.len() >= 8,
    ensures
        r == be_value(b@.take(8)),
{
    let mut n: u64 = 0;
    let mut i: usize = 0;
    proof {
        lemma_pow256();
    }
    while i < 8
        invariant
            i <= 8,
            b@.len() >= 8,
            n == be_value(b@.take(i as int)),
            n < pow256(i as nat),
            forall|k: nat| k < 8 ==> #[trigger] pow256(k) <= 0x100_0000_0000_0000,
        decreases 8 - i,
    {
        assert(b@.take(i + 1).drop_last() == b@.take(i as int));
        assert(pow256((i + 1) as nat) == 256 * pow256(i as nat));
        n = n * 256 + b[i] as u64;
        i = i + 1;
    }
    n
}

/// The counter that a stored value stands for: eight bytes are a number, anything else is decimal
/// text, or zero.
pub open spec fn counter_in(b: Seq<u8>) -> nat {
    if b.len() == 8 {
        be_value(b)
    } else {
        match parsed_unsigned(lossy_text(b), u64::MAX as nat) {
            Some(n) => n,
            None => 0,
        }
    }
}

/// The counter that a stored value stands for.
pub fn read_counter(b: &Vec<u8>) -> (r: u64)
    ensures
        r == counter_in(b@),
{
    if b.len() == 8 {
        assert(b@.take(8) == b@);
        read_be(b)
    } else {
        let t = from_utf8_lossy(b.as_slice());
        match parse_u64(&t) {
            Some(n) => n,
            None => 0,
        }
    }
}

pub open spec fn saturated(n: nat) -> nat {
    if n <= u64::MAX {
        n
    } else {
        u64::MAX as nat
    }
}

/// The counter behind an increment, and the value to store; a missing value counts as zero.
pub fn increment(current: &Option<Vec<u8>>, delta: u64) -> (r: (u64, Vec<u8>))
    ensures
        r.0 == saturated(
            (match *current {
                Some(b) => counter_in(b@),
                None => 0,
            }) + delta as nat,
        ),
        r.1@ == be_seq(r.0 as nat, 8),
        counter_in(r.1@) == r.0,
{
    let n: u64 = match current {
        Some(b) => read_counter(b),
        None => 0,
    };
    let sum: u64 = n.saturating_add(delta);
    (sum, counter_bytes(sum))
}

/// The counter behind an increment in a Cloudflare namespace, and the text to store.
pub fn increment_text(current: &Option<String>, delta: u64) -> (r: (u64, String))
    ensures
        r.0 == saturated(
            (match *current {
                Some(t) => if t@.len() == 0 {
                    0
                } else {
                    counter_in(text_bytes(t@))
                },
                None => 0,
            }) + delta as nat,
        ),
        r.1@ == base64_text(be_seq(r.0 as nat, 8)),
        counter_in(text_bytes(r.1@)) == r.0,
{
    let bytes = match current {
        Some(t) => if t.as_str().is_empty() {
            None
        } else {
            Some(decode_value(t))
        },
        None => None,
    };
    let (sum, stored) = self::increment(&bytes, delta);
    let text = encode_base64(stored.as_slice());
    (sum, text)
}

/// How a counter of a NATS store is written back.
pub enum CounterWrite {
    /// Only where the entry still has this revision.
    Update(u64),
    Put,
}

/// An entry of a NATS store.
pub struct NatsEntry {
    pub revision: u64,
    pub value: Vec<u8>,
}

pub open spec fn nats_counter(entry: Option<NatsEntry>) -> nat {
    match entry {
        Some(e) => be_value(e.value@.take(8)),
        None => 0,
    }
}

/// The counter behind an increment in a NATS store: the entry has to hold eight bytes, and the sum
/// has to fit 64 bits.
pub fn increment_nats(entry: &Option<NatsEntry>, delta: u64) -> (r: (u64, Vec<u8>, CounterWrite))
    requires
        entry is Some ==> entry->0.value@.len() >= 8,
        nats_counter(*entry) + delta <= u64::MAX,
    ensures
        r.0 == nats_counter(*entry) + delta,
        r.1@ == be_seq(r.0 as nat, 8),
        match *entry {
            Some(e) => r.2 == CounterWrite::Update(e.revision),
            None => r.2 == CounterWrite::Put,
        },
{
    let n: u64 = match entry {
        Some(e) => read_be(&e.value),
        None => 0,
    };
    let sum: u64 = n + delta;
    let how = match entry {
        Some(e) => CounterWrite::Update(e.revision),
        None => CounterWrite::Put,
    };
    (sum, counter_bytes(sum), how)
}

/// Whether an entry of a NATS store can be incremented.
pub fn can_increment_nats(entry: &Option<NatsEntry>, delta: u64) -> (r: bool)
    ensures
        r == ((entry is Some ==> entry->0.value@.len() >= 8) && nats_counter(*entry) + delta
            <= u64::MAX),
{
    match entry {
        Some(e) => if e.value.len() < 8 {
            false
        } else {
            read_be(&e.value) <= u64::MAX - delta
        },
        None => true,
    }
}

// ---- Plugin ----

pub struct ComponentData {
    pub interface_config: Config,
    /// Whether a backend was made for the component.
    pub has_engine: bool,
}

pub struct MultiBackendKeyValue {
    pub tracker: Tracker<ComponentData>,
}

/// Where the backend of a component comes from.
pub enum EngineSource {
    Kept,
    Make(KvEngineConfig),
}

pub open spec fn no_kv_config(component_id: Seq<char>) -> Seq<char> {
    "No KV config found for component '"@ + component_id + "'"@
}

impl MultiBackendKeyValue {
    pub fn new() -> (r: MultiBackendKeyValue)
        ensures
            r.tracker@ == Map::<Seq<char>, Owned<ComponentData>>::empty(),
    {
        MultiBackendKeyValue { tracker: Table::new() }
    }

    pub fn id(&self) -> (r: &'static str)
        ensures
            r@ == "wasi-keyvalue-multi-backend"@,
    {
        PLUGIN_KEYVALUE_ID
    }

    pub fn world(&self) -> (r: WitWorld)
        ensures
            r.imports@.len() == 0,
            r.exports@.len() == 1,
            r.exports@[0].names(
                "wasi"@,
                "keyvalue"@,
                seq!["store"@, "atomics"@, "batch"@],
                "0.2.0-draft"@,
            ),
    {
        let mut exports: Vec<WitInterface> = Vec::new();
        exports.push(
            WitInterface::of("wasi", "keyvalue", three("store", "atomics", "batch"), "0.2.0-draft"),
        );
        WitWorld { imports: Vec::new(), exports }
    }

    /// Begins to track a component that brings a `wasi:keyvalue` interface.
    pub fn on_workload_item_bind(
        &mut self,
        component_id: &str,
        workload_id: &str,
        is_component: bool,
        interfaces: &Vec<WitInterface>,
    ) -> (bound: bool)
        ensures
            bound == (is_component && first_of_package(interfaces@, "wasi"@, "keyvalue"@) is Some),
            !bound ==> final(self).tracker@ == old(self).tracker@,
            bound ==> put_at(old(self).tracker@, final(self).tracker@, component_id@) && ({
                let o = final(self).tracker@[component_id@];
                &&& o.workload_id@ == workload_id@
                &&& o.data.interface_config@ == first_of_package(
                    interfaces@,
                    "wasi"@,
                    "keyvalue"@,
                )->0.config@
                &&& !o.data.has_engine
            }),
    {
        if let Some(interface_config) = bound_config(interfaces, "wasi", "keyvalue") {
            if is_component {
                let owned = Owned {
                    workload_id: workload_id.to_owned(),
                    data: ComponentData { interface_config, has_engine: false },
                };
                proof {
                    lemma_put(self.tracker@, component_id@, owned);
                }
                self.tracker.insert(component_id.to_owned(), owned);
                return true;
            }
        }
        false
    }

    /// Forgets the components of a workload.
    pub fn on_workload_unbind(&mut self, workload_id: &str)
        ensures
            final(self).tracker@ == outside_workload(old(self).tracker@, workload_id@),
    {
        let _ = self.tracker.remove_workload(workload_id);
    }

    /// Where the backend of a component comes from: it is made once and then kept.
    pub fn get_or_create_engine(&self, component_id: &str) -> (r: Result<EngineSource, String>)
        ensures
            match lookup(self.tracker@, component_id@) {
                None => r is Err && r->Err_0@ == no_kv_config(component_id@),
                Some(o) => if o.data.has_engine {
                    r is Ok && r->Ok_0 is Kept
                } else {
                    match r {
                        Ok(EngineSource::Make(e)) => engine_error(o.data.interface_config@) is None
                            && engine_of(e, o.data.interface_config),
                        Ok(EngineSource::Kept) => false,
                        Err(e) => engine_error(o.data.interface_config@) == Some(e@),
                    }
                },
            },
    {
        match self.tracker.get(component_id) {
            None => Err(cat3("No KV config found for component '", component_id, "'")),
            Some(o) => if o.data.has_engine {
                Ok(EngineSource::Kept)
            } else {
                match engine_config(&o.data.interface_config) {
                    Ok(e) => Ok(EngineSource::Make(e)),
                    Err(e) => Err(e),
                }
            },
        }
    }

    /// Offers a backend that was made for a component; says whether it is kept. One that was made
    /// meanwhile stays.
    pub fn engine_made(&mut self, component_id: &str) -> (kept: bool)
        ensures
            match lookup(old(self).tracker@, component_id@) {
                None => !kept && final(self).tracker@ == old(self).tracker@,
                Some(o) => if o.data.has_engine {
                    !kept && final(self).tracker@ == old(self).tracker@
                } else {
                    let n = final(self).tracker@[component_id@];
                    &&& kept
                    &&& put_at(old(self).tracker@, final(self).tracker@, component_id@)
                    &&& n.workload_id == o.workload_id
                    &&& n.data.interface_config == o.data.interface_config
                    &&& n.data.has_engine
                },
            },
    {
        let ghost before = self.tracker@;
        match self.tracker.get(component_id) {
            None => {
                return false;
            },
            Some(o) => {
                if o.data.has_engine {
                    return false;
                }
            },
        }
        match self.tracker.remove(component_id) {
            None => {
                assert(false);
                false
            },
            Some(o) => {
                let owned = Owned {
                    workload_id: o.workload_id,
                    data: ComponentData {
                        interface_config: o.data.interface_config,
                        has_engine: true,
                    },
                };
                proof {
                    lemma_put(before, component_id@, owned);
                }
                self.tracker.insert(component_id.to_owned(), owned);
                true
            },
        }
    }

    /// The bucket that a component opens over a backend of a kind.
    pub fn open(&self, component_id: &str, kind: BackendKind, identifier: &str) -> (r: BucketHandle)
        ensures
            r.kind == kind,
            r.identifier@ == bucket_id(
                identifier@,
                match lookup(self.tracker@, component_id@) {
                    Some(o) => Some(o.data.interface_config@),
                    None => None,
                },
            ),
    {
        match self.tracker.get(component_id) {
            Some(o) => BucketHandle {
                kind,
                identifier: resolve_bucket(identifier, &o.data.interface_config),
            },
            None => BucketHandle { kind, identifier: identifier.to_owned() },
        }
    }
}

impl Default for MultiBackendKeyValue {
    fn default() -> (r: MultiBackendKeyValue)
        ensures
            r.tracker@ == Map::<Seq<char>, Owned<ComponentData>>::empty(),
    {
        MultiBackendKeyValue::new()
    }
}

// ---- Laws ----

/// All keys from a place on, page by page.
pub open spec fn pages_from<T>(keys: Seq<T>, start: int) -> Seq<T>
    decreases keys.len() - start,
{
    if start < 0 || start > keys.len() {
        Seq::<T>::empty()
    } else {
        match page_next(start, keys.len() as int) {
            Some(next) => page_keys(keys, start) + pages_from(keys, next),
            None => page_keys(keys, start),
        }
    }
}

/// Following the cursors from the first page on gives every key once, in order.
pub proof fn pages_cover_all_keys<T>(keys: Seq<T>, start: int)
    requires
        0 <= start <= keys.len(),
    ensures
        pages_from(keys, start) == keys.skip(start),
    decreases keys.len() - start,
{
    match page_next(start, keys.len() as int) {
        Some(next) => {
            pages_cover_all_keys(keys, next);
            assert(page_keys(keys, start) + keys.skip(next) =~= keys.skip(start));
        },
        None => {
            assert(page_keys(keys, start) =~= keys.skip(start));
        },
    }
}

/// A page never holds more keys than it may.
pub proof fn pages_are_bounded<T>(keys: Seq<T>, start: int)
    requires
        0 <= start,
    ensures
        page_keys(keys, start).len() <= PAGE_SIZE,
{
}

/// What a counter was set to is what the next increment starts from.
pub proof fn counters_read_back(n: u64)
    ensures
        counter_in(be_seq(n as nat, 8)) == n,
{
    lemma_pow256();
    lemma_be_seq(n as nat, 8);
}

/// Different keys of a bucket are stored under different keys.
pub proof fn stored_keys_are_distinct(identifier: Seq<char>, sep: Seq<char>, a: Seq<char>, b: Seq<char>)
    requires
        stored_key(identifier, sep, a) == stored_key(identifier, sep, b),
    ensures
        a == b,
{
    if identifier.len() > 0 {
        let p = identifier + sep;
        assert((p + a).skip(p.len() as int) =~= a);
        assert((p + b).skip(p.len() as int) =~= b);
    }
}

/// A key that was stored in a bucket of a NATS store is listed under its own name.
pub proof fn stored_keys_are_listed(identifier: Seq<char>, key: Seq<char>)
    ensures
        keys_in_bucket(seq![stored_key(identifier, "."@, key)], identifier) == seq![key],
{
    let raw = seq![stored_key(identifier, "."@, key)];
    assert(raw.drop_last() =~= Seq::<Seq<char>>::empty());
    assert(keys_in_bucket(raw.drop_last(), identifier).len() == 0);
    if identifier.len() > 0 {
        let p = identifier + "."@;
        assert(p.is_prefix_of(p + key)) by {
            assert((p + key).subrange(0, p.len() as int) =~= p);
        }
        assert((p + key).skip(p.len() as int) =~= key);
    }
    assert(keys_in_bucket(raw, identifier) =~= seq![key]);
}

/// A page is the hundred keys from its cursor on, or those that are left; there is another page
/// only where keys are left.
pub proof fn pages_follow_the_cursor<T>(keys: Seq<T>, cursor: Option<u64>, i: int)
    ensures
        ({
            let start = page_start(cursor);
            let page = page_keys(keys, start);
            &&& cursor is None ==> start == 0
            &&& cursor is Some ==> start == cursor->0
            &&& start >= keys.len() ==> page.len() == 0 && page_next(start, keys.len() as int) is None
            &&& start < keys.len() <= start + 100 ==> page.len() == keys.len() - start && page_next(
                start,
                keys.len() as int,
            ) is None
            &&& start + 100 < keys.len() ==> page.len() == 100 && page_next(start, keys.len() as int)
                == Some(start + 100)
            &&& 0 <= i < page.len() ==> page[i] == keys[start + i]
        }),
{
}

/// The backend is named by its setting; a name that is neither of the two services is a scheme.
pub proof fn backends_go_by_their_name(name: Seq<char>)
    ensures
        backend_kind(name) is Cloudflare <==> name == "cloudflare"@,
        backend_kind(name) is Nats <==> name == "nats"@,
        backend_kind(name) is OpenDal <==> name != "cloudflare"@ && name != "nats"@,
{
    reveal_strlit("cloudflare");
    reveal_strlit("nats");
    assert("cloudflare"@.len() != "nats"@.len());
}

/// A setting that is missing has its default.
pub proof fn missing_settings_have_defaults(m: Map<Seq<char>, String>, key: Seq<char>, other: Seq<char>)
    ensures
        m.contains_key(key) ==> setting_or(m, key, other) == m[key]@,
        !m.contains_key(key) ==> setting_or(m, key, other) == other,
{
}

/// A store is opened with the settings of its backend; without a backend it is kept in memory.
pub proof fn engines_take_their_settings(e: KvEngineConfig, c: Config)
    requires
        engine_of(e, c),
    ensures
        c@.contains_key("backend"@) && c@["backend"@]@ == "cloudflare"@ ==> match e {
            KvEngineConfig::Cloudflare { account_id, api_token, namespace } => {
                &&& c@.contains_key("account_id"@) ==> account_id@ == c@["account_id"@]@
                &&& c@.contains_key("api_token"@) ==> api_token@ == c@["api_token"@]@
                &&& c@.contains_key("namespace_id"@) ==> namespace@ == c@["namespace_id"@]@
                &&& !c@.contains_key("account_id"@) ==> account_id@.len() == 0
                &&& !c@.contains_key("api_token"@) ==> api_token@.len() == 0
                &&& !c@.contains_key("namespace_id"@) ==> namespace@.len() == 0
            },
            _ => false,
        },
        c@.contains_key("backend"@) && c@["backend"@]@ == "nats"@ ==> match e {
            KvEngineConfig::Nats { url, bucket, options } => {
                &&& c@.contains_key("nats_url"@) ==> url@ == c@["nats_url"@]@
                &&& !c@.contains_key("nats_url"@) ==> url@ == "nats://127.0.0.1:4222"@
                &&& c@.contains_key("bucket"@) ==> bucket@ == c@["bucket"@]@
                &&& !c@.contains_key("bucket"@) ==> bucket@ == "default"@
                &&& c@.contains_key("nats_tls_ca"@) ==> options.root_certificates is Some
                    && options.root_certificates->0@ == c@["nats_tls_ca"@]@
                &&& !c@.contains_key("nats_tls_ca"@) ==> options.root_certificates is None
                &&& auth_of(c@, configured_seed_error(c@)) == Ok::<NatsAuthView, Seq<char>>(
                    options.auth@,
                )
            },
            _ => false,
        },
        c@.contains_key("backend"@) && c@["backend"@]@ != "nats"@ && c@["backend"@]@ != "cloudflare"@
            ==> match e {
            KvEngineConfig::OpenDal { scheme, settings } => scheme@ == c@["backend"@]@
                && crate::json::member_views(settings@) == entries_but(c.pairs(), "backend"@),
            _ => false,
        },
        !c@.contains_key("backend"@) ==> match e {
            KvEngineConfig::OpenDal { scheme, .. } => scheme@ == "memory"@,
            _ => false,
        },
{
    reveal_strlit("cloudflare");
    reveal_strlit("nats");
    reveal_strlit("memory");
    reveal_strlit("");
    assert("cloudflare"@.len() != "nats"@.len());
    assert("memory"@.len() != "nats"@.len());
    assert("memory"@.len() != "cloudflare"@.len());
}

/// A store is refused only for the credentials of a NATS server.
pub proof fn only_credentials_are_refused(m: Map<Seq<char>, String>)
    ensures
        match engine_error(m) {
            Some(e) => m.contains_key("backend"@) && m["backend"@]@ == "nats"@ && auth_of(
                m,
                configured_seed_error(m),
            ) == Err::<NatsAuthView, Seq<char>>(e),
            None => !m.contains_key("backend"@) || m["backend"@]@ != "nats"@ || auth_of(
                m,
                configured_seed_error(m),
            ) is Ok,
        },
{
    reveal_strlit("cloudflare");
    reveal_strlit("nats");
    reveal_strlit("memory");
    assert("cloudflare"@.len() != "nats"@.len());
    assert("memory"@.len() != "nats"@.len());
}

/// The settings of a scheme are all the others, in order.
pub proof fn schemes_take_the_other_settings(p: Seq<(Seq<char>, String)>, k: Seq<char>, v: String, key: Seq<char>)
    ensures
        k == key ==> entries_but(p.push((k, v)), key) == entries_but(p, key),
        k != key ==> entries_but(p.push((k, v)), key) == entries_but(p, key).push((k, v@)),
        entries_but(Seq::<(Seq<char>, String)>::empty(), key).len() == 0,
{
    assert(p.push((k, v)).drop_last() =~= p);
}

/// A key is stored under its bucket and itself, and under itself where the bucket has no name.
pub proof fn keys_are_stored_under_their_bucket(identifier: Seq<char>, sep: Seq<char>, key: Seq<char>)
    ensures
        identifier.len() > 0 ==> stored_key(identifier, sep, key) == identifier + sep + key,
        identifier.len() == 0 ==> stored_key(identifier, sep, key) == key,
{
}

/// A bucket without a name is the one of the configuration: the namespace, the bucket or the root,
/// by the backend. One with a name keeps it.
pub proof fn unnamed_buckets_are_configured(identifier: Seq<char>, m: Map<Seq<char>, String>)
    ensures
        bucket_id(identifier, None) == identifier,
        identifier.len() > 0 ==> bucket_id(identifier, Some(m)) == identifier,
        identifier.len() == 0 && m.contains_key("backend"@) && m["backend"@]@ == "cloudflare"@
            && m.contains_key("namespace_id"@) ==> bucket_id(identifier, Some(m))
            == m["namespace_id"@]@,
        identifier.len() == 0 && m.contains_key("backend"@) && m["backend"@]@ == "nats"@
            && m.contains_key("bucket"@) ==> bucket_id(identifier, Some(m)) == m["bucket"@]@,
        identifier.len() == 0 && !(m.contains_key("backend"@) && (m["backend"@]@ == "nats"@
            || m["backend"@]@ == "cloudflare"@)) && m.contains_key("root"@) ==> bucket_id(
            identifier,
            Some(m),
        ) == m["root"@]@,
        identifier.len() == 0 && !m.contains_key("namespace_id"@) && !m.contains_key("bucket"@)
            && !m.contains_key("root"@) ==> bucket_id(identifier, Some(m)).len() == 0,
{
    reveal_strlit("cloudflare");
    reveal_strlit("nats");
    reveal_strlit("");
    assert("cloudflare"@.len() != "nats"@.len());
}

/// The keys of a bucket are the raw keys that begin with its name, without it, in order; a bucket
/// without a name has all.
pub proof fn buckets_list_their_own_keys(raw: Seq<Seq<char>>, identifier: Seq<char>, key: Seq<char>, other: Seq<char>)
    requires
        identifier.len() > 0,
        !(identifier + "."@).is_prefix_of(other),
    ensures
        keys_in_bucket(raw.push(identifier + "."@ + key), identifier) == keys_in_bucket(
            raw,
            identifier,
        ).push(key),
        keys_in_bucket(raw.push(other), identifier) == keys_in_bucket(raw, identifier),
        keys_in_bucket(raw.push(other), Seq::<char>::empty()) == keys_in_bucket(
            raw,
            Seq::<char>::empty(),
        ).push(other),
        keys_in_bucket(Seq::<Seq<char>>::empty(), identifier).len() == 0,
{
    let p = identifier + "."@;
    assert(raw.push(p + key).drop_last() =~= raw);
    assert(raw.push(other).drop_last() =~= raw);
    assert((p + key).subrange(0, p.len() as int) =~= p);
    assert((p + key).skip(p.len() as int) =~= key);
}

/// A value that is printable text is kept as that text, any other in base 64; empty text is an empty
/// value, text in base 64 the bytes it stands for, and other text its own bytes.
pub proof fn values_are_kept_as_text(v: Seq<u8>, t: Seq<char>, i: int)
    ensures
        printable(v) ==> value_text(v).len() == v.len(),
        printable(v) && 0 <= i < v.len() ==> value_text(v)[i] as int == v[i],
        !printable(v) ==> value_text(v) == base64_text(v),
        printable(v) <==> forall|k: int| 0 <= k < v.len() ==> 0x20 <= #[trigger] v[k] <= 0x7f,
        t.len() == 0 ==> text_bytes(t).len() == 0,
        t.len() > 0 && base64_bytes(t) is Some ==> text_bytes(t) == base64_bytes(t)->0,
        t.len() > 0 && base64_bytes(t) is None ==> text_bytes(t) == encode_utf8(t),
{
    if printable(v) && 0 <= i < v.len() {
        assert(32 <= v[i] < 128);
    }
}

/// A counter is eight bytes, the greatest first.
pub proof fn counters_begin_with_the_greatest_byte(b: Seq<u8>, more: u8, n: u64)
    ensures
        be_value(b.push(more)) == 256 * be_value(b) + more,
        be_value(Seq::<u8>::empty()) == 0,
        b.len() == 8 ==> counter_in(b) == be_value(b),
        b.len() != 8 ==> counter_in(b) == match parsed_unsigned(lossy_text(b), 0xffff_ffff_ffff_ffff) {
            Some(n) => n,
            None => 0,
        },
        be_seq(n as nat, 8).len() == 8,
        be_value(be_seq(n as nat, 8)) == n,
{
    assert(b.push(more).drop_last() =~= b);
    lemma_pow256();
    lemma_be_seq(n as nat, 8);
}

/// A counter grows by what is added, up to the greatest value, where it stays.
pub proof fn counters_stay_at_the_greatest(n: nat)
    ensures
        n <= 0xffff_ffff_ffff_ffff ==> saturated(n) == n,
        n > 0xffff_ffff_ffff_ffff ==> saturated(n) == 0xffff_ffff_ffff_ffff,
{
}

/// A NATS counter is the first eight bytes of its entry, and nought where there is none.
pub proof fn nats_counters_are_eight_bytes(e: NatsEntry)
    ensures
        nats_counter(Some(e)) == be_value(e.value@.take(8)),
        nats_counter(None) == 0,
{
}

/// A component that is not bound is told so.
pub proof fn missing_components_are_named(id: Seq<char>)
    ensures
        no_kv_config(id) == "No KV config found for component '"@ + id + "'"@,
{
}

/// The plugin goes by its own name, and takes and gives the interfaces of its own package.
pub proof fn the_plugin_and_its_world(p: MultiBackendKeyValue, id: &'static str, w: WitWorld)
    requires
        call_ensures(MultiBackendKeyValue::id, (&p,), id),
        call_ensures(MultiBackendKeyValue::world, (&p,), w),
    ensures
        id@ == "wasi-keyvalue-multi-backend"@,
        w.imports@.len() == 0,
        w.exports@.len() == 1,
        w.exports@[0].names(
            "wasi"@,
            "keyvalue"@,
            seq!["store"@, "atomics"@, "batch"@],
            "0.2.0-draft"@,
        ),
{
}

/// The keys of a bucket are stored with a slash behind its name, and with a dot in a NATS store; a
/// bucket without a name stores them as they are.
pub proof fn buckets_store_their_keys(h: BucketHandle, key: &str, a: String, b: String, c: String)
    requires
        call_ensures(BucketHandle::full_key, (&h, key), a),
        call_ensures(BucketHandle::nats_key, (&h, key), b),
        call_ensures(BucketHandle::list_path, (&h,), c),
    ensures
        h.identifier@.len() > 0 ==> a@ == h.identifier@ + "/"@ + key@ && b@ == h.identifier@ + "."@
            + key@ && c@ == h.identifier@ + "/"@ && a@ == c@ + key@,
        h.identifier@.len() == 0 ==> a@ == key@ && b@ == key@ && c@ == "/"@,
{
}

/// A value that is read is the value that is there, nothing where there is none, and an error where
/// reading failed.
pub proof fn reads_give_what_is_there(o: ReadOutcome, r: Result<Option<Vec<u8>>, String>)
    requires
        call_ensures(get, (o,), r),
    ensures
        match o {
            ReadOutcome::Found(b) => r is Ok && r->Ok_0 == Some(b),
            ReadOutcome::NotFound => r is Ok && r->Ok_0 is None,
            ReadOutcome::Failed(e) => r is Err && r->Err_0 == e,
        },
{
}

/// A check that fails counts as not found, but in a NATS store, where it is an error.
pub proof fn failed_checks_find_nothing(
    kind: BackendKind,
    found: Result<bool, String>,
    r: Result<bool, String>,
)
    requires
        call_ensures(has_key, (kind, found), r),
    ensures
        found is Ok ==> r == found,
        found is Err && kind is Nats ==> r is Err && r->Err_0 == found->Err_0,
        found is Err && !(kind is Nats) ==> r is Ok && !r->Ok_0,
{
}

/// Reading many keys gives, for each in order, its own key and value, and nothing for those that are
/// not there or cannot be read.
pub proof fn many_keys_are_read_in_order(
    keys: Vec<String>,
    outcomes: Vec<ReadOutcome>,
    r: Vec<Option<(String, Vec<u8>)>>,
    i: int,
)
    requires
        keys@.len() == outcomes@.len(),
        call_ensures(get_many, (keys, outcomes), r),
        0 <= i < keys@.len(),
    ensures
        r@.len() == keys@.len(),
        match outcomes@[i] {
            ReadOutcome::Found(b) => match r@[i] {
                Some((key, value)) => key@ == keys@[i]@ && value@ == b@,
                None => false,
            },
            _ => r@[i] is None,
        },
{
}

/// Values that are written come back as they were, but for printable text that is base 64 itself.
pub proof fn written_values_come_back(
    value: &Vec<u8>,
    text: String,
    stored: &str,
    back: Vec<u8>,
)
    requires
        call_ensures(encode_value, (value,), text),
        stored@ == text@,
        call_ensures(decode_value, (stored,), back),
        !printable(value@) || value@.len() == 0 || base64_bytes(ascii_text(value@)) is None,
    ensures
        back@ == value@,
{
}

/// A counter that is incremented twice has grown by both amounts, as far as it can grow, and what is
/// kept is the number that is given back.
pub proof fn increments_add_up(
    current: Option<Vec<u8>>,
    a: u64,
    b: u64,
    first: (u64, Vec<u8>),
    second: (u64, Vec<u8>),
)
    requires
        call_ensures(increment, (&current, a), first),
        call_ensures(increment, (&Some(first.1), b), second),
    ensures
        ({
            let start: nat = match current {
                Some(c) => counter_in(c@),
                None => 0,
            };
            &&& start + a + b <= 0xffff_ffff_ffff_ffff ==> first.0 == start + a && second.0 == start
                + a + b
            &&& start + a + b > 0xffff_ffff_ffff_ffff ==> second.0 == 0xffff_ffff_ffff_ffff
        }),
        counter_in(first.1@) == first.0,
        first.1@.len() == 8,
{
    lemma_pow256();
    lemma_be_seq(first.0 as nat, 8);
}

/// A NATS counter grows by the amount, over the revision that was read.
pub proof fn nats_increments_add_up(
    entry: Option<NatsEntry>,
    delta: u64,
    r: (u64, Vec<u8>, CounterWrite),
)
    requires
        entry is Some ==> entry->0.value@.len() >= 8,
        nats_counter(entry) + delta <= u64::MAX,
        call_ensures(increment_nats, (&entry, delta), r),
    ensures
        entry is None ==> r.0 == delta && r.2 is Put,
        entry is Some ==> r.0 == be_value(entry->0.value@.take(8)) + delta && r.2
            == CounterWrite::Update(entry->0.revision),
        be_value(r.1@) == r.0,
{
    lemma_pow256();
    lemma_be_seq(r.0 as nat, 8);
}

/// A page of a listing holds the keys from the cursor on, and a cursor where keys are left.
pub proof fn listings_are_paged(keys: &Vec<String>, cursor: Option<u64>, r: KeyResponse, i: int)
    requires
        page_start(cursor) + 100 <= usize::MAX,
        call_ensures(list_page, (keys, cursor), r),
    ensures
        ({
            let start: int = match cursor {
                Some(c) => c as int,
                None => 0,
            };
            &&& start + 100 < keys@.len() ==> r.keys@.len() == 100 && r.cursor is Some && r.cursor->0
                == start + 100
            &&& start <= keys@.len() <= start + 100 ==> r.keys@.len() == keys@.len() - start
                && r.cursor is None
            &&& start > keys@.len() ==> r.keys@.len() == 0 && r.cursor is None
            &&& 0 <= i < r.keys@.len() ==> r.keys@[i] == keys@[start + i]
        }),
{
}

/// A component that has an interface of the package is tracked for its workload, as one that has just
/// been bound; any other is not, and nothing else changes.
pub proof fn components_are_bound_for_their_workload(
    p: &mut MultiBackendKeyValue,
    id: &str,
    workload: &str,
    is_component: bool,
    interfaces: &Vec<WitInterface>,
    bound: bool,
    other: Seq<char>,
)
    requires
        call_ensures(
            MultiBackendKeyValue::on_workload_item_bind,
            (p, id, workload, is_component, interfaces),
            bound,
        ),
        other != id@,
    ensures
        bound <==> is_component && first_of_package(interfaces@, "wasi"@, "keyvalue"@) is Some,
        !bound ==> final(p).tracker@ == old(p).tracker@,
        lookup(final(p).tracker@, other) == lookup(old(p).tracker@, other),
        bound ==> {
            let o = final(p).tracker@[id@];
            &&& final(p).tracker@.contains_key(id@)
            &&& o.workload_id@ == workload@
            &&& o.data.interface_config@ == first_of_package(interfaces@, "wasi"@, "keyvalue"@)->0.config@
            &&& !o.data.has_engine
        },
{
    if bound {
        crate::table::putting_leaves_the_others(old(p).tracker@, final(p).tracker@, id@, other);
    }
}

} // verus!
