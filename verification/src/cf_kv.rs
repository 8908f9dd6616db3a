//! Key-value buckets over Cloudflare Workers KV.
use vstd::prelude::*;
use crate::table::{config_get, lemma_put, lookup, put_at, setting, Table};
use crate::text::cat3;
use crate::world::{bound_config, first_of_package, three, WitInterface, WitWorld};

verus! {

pub const PLUGIN_KEYVALUE_ID: &'static str = "wasi-keyvalue-cf";

/// The namespace of a workload and the credentials for it.
pub struct CloudflareWorkloadConfig {
    pub account_id: String,
    pub api_token: String,
    pub namespace: String,
}

/// A bucket: the namespace of its workload under a name that the guest gave it.
pub struct BucketHandle {
    pub account_id: String,
    pub api_token: String,
    pub namespace: String,
    pub identifier: String,
}

pub struct CloudflareKeyValue {
    /// The configuration of each workload.
    pub configs: Table<CloudflareWorkloadConfig>,
}

pub open spec fn setting_or_empty(m: Map<Seq<char>, String>, key: Seq<char>) -> Seq<char> {
    match setting(m, key) {
        Some(t) => t,
        None => Seq::<char>::empty(),
    }
}

impl CloudflareWorkloadConfig {
    /// Whether account, token and namespace are all given.
    pub fn is_complete(&self) -> (r: bool)
        ensures
            r == (self.account_id@.len() > 0 && self.api_token@.len() > 0 && self.namespace@.len()
                > 0),
    {
        !self.account_id.as_str().is_empty() && !self.api_token.as_str().is_empty()
            && !self.namespace.as_str().is_empty()
    }
}

impl CloudflareKeyValue {
    pub fn new() -> (r: CloudflareKeyValue)
        ensures
            r.configs@ == Map::<Seq<char>, CloudflareWorkloadConfig>::empty(),
    {
        CloudflareKeyValue { configs: Table::new() }
    }

    pub fn id(&self) -> (r: &'static str)
        ensures
            r@ == "wasi-keyvalue-cf"@,
    {
        PLUGIN_KEYVALUE_ID
    }

    pub fn world(&self) -> (r: WitWorld)
        ensures
            r.exports@.len() == 0,
            r.imports@.len() == 1,
            r.imports@[0].names(
                "wasi"@,
                "keyvalue"@,
                seq!["store"@, "atomics"@, "batch"@],
                "0.2.0-draft"@,
            ),
    {
        let mut imports: Vec<WitInterface> = Vec::new();
        imports.push(
            WitInterface::of("wasi", "keyvalue", three("store", "atomics", "batch"), "0.2.0-draft"),
        );
        WitWorld { imports, exports: Vec::new() }
    }

    /// Notes the configuration of a workload that brings a `wasi:keyvalue` interface; settings that
    /// are missing are empty.
    pub fn on_workload_item_bind(&mut self, workload_id: &str, interfaces: &Vec<WitInterface>) -> (bound:
        bool)
        ensures
            bound == (first_of_package(interfaces@, "wasi"@, "keyvalue"@) is Some),
            !bound ==> final(self).configs@ == old(self).configs@,
            bound ==> put_at(old(self).configs@, final(self).configs@, workload_id@) && ({
                let m = first_of_package(interfaces@, "wasi"@, "keyvalue"@)->0.config@;
                let c = final(self).configs@[workload_id@];
                &&& c.account_id@ == setting_or_empty(m, "account_id"@)
                &&& c.api_token@ == setting_or_empty(m, "api_token"@)
                &&& c.namespace@ == setting_or_empty(m, "namespace"@)
            }),
    {
        match bound_config(interfaces, "wasi", "keyvalue") {
            None => false,
            Some(config) => {
                let account_id = match config_get(&config, "account_id") {
                    Some(t) => t,
                    None => String::new(),
                };
                let api_token = match config_get(&config, "api_token") {
                    Some(t) => t,
                    None => String::new(),
                };
                let namespace = match config_get(&config, "namespace") {
                    Some(t) => t,
                    None => String::new(),
                };
                let c = CloudflareWorkloadConfig { account_id, api_token, namespace };
                proof {
                    lemma_put(self.configs@, workload_id@, c);
                }
                self.configs.insert(workload_id.to_owned(), c);
                true
            },
        }
    }

    /// Forgets the configuration of a workload.
    pub fn on_workload_unbind(&mut self, workload_id: &str)
        ensures
            final(self).configs@ == old(self).configs@.remove(workload_id@),
    {
        let _ = self.configs.remove(workload_id);
    }

    /// A bucket over the namespace of a workload.
    pub fn open(&self, workload_id: &str, identifier: &str) -> (r: Result<BucketHandle, String>)
        ensures
            match lookup(self.configs@, workload_id@) {
                None => r is Err && r->Err_0@ == "No Cloudflare KV config found for workload '"@
                    + workload_id@
                    + "'. Please configure account_id, api_token, and namespace in interface config."@,
                Some(c) => r is Ok && r->Ok_0.account_id == c.account_id && r->Ok_0.api_token
                    == c.api_token && r->Ok_0.namespace == c.namespace && r->Ok_0.identifier@
                    == identifier@,
            },
    {
        match self.configs.get(workload_id) {
            None => Err(
                cat3(
                    "No Cloudflare KV config found for workload '",
                    workload_id,
                    "'. Please configure account_id, api_token, and namespace in interface config.",
                ),
            ),
            Some(c) => Ok(
                BucketHandle {
                    account_id: c.account_id.clone(),
                    api_token: c.api_token.clone(),
                    namespace: c.namespace.clone(),
                    identifier: identifier.to_owned(),
                },
            ),
        }
    }
}

impl Default for CloudflareKeyValue {
    fn default() -> (r: CloudflareKeyValue)
        ensures
            r.configs@ == Map::<Seq<char>, CloudflareWorkloadConfig>::empty(),
    {
        CloudflareKeyValue::new()
    }
}

// ---- Laws ----

/// A setting that is missing is empty.
pub proof fn missing_settings_are_empty(m: Map<Seq<char>, String>, key: Seq<char>)
    ensures
        m.contains_key(key) ==> setting_or_empty(m, key) == m[key]@,
        !m.contains_key(key) ==> setting_or_empty(m, key).len() == 0,
{
}

/// The plugin goes by its own name, and takes and gives the interfaces of its own package.
pub proof fn the_plugin_and_its_world(p: CloudflareKeyValue, id: &'static str, w: WitWorld)
    requires
        call_ensures(CloudflareKeyValue::id, (&p,), id),
        call_ensures(CloudflareKeyValue::world, (&p,), w),
    ensures
        id@ == "wasi-keyvalue-cf"@,
        w.exports@.len() == 0,
        w.imports@.len() == 1,
        w.imports@[0].names(
            "wasi"@,
            "keyvalue"@,
            seq!["store"@, "atomics"@, "batch"@],
            "0.2.0-draft"@,
        ),
{
}

/// A bucket is opened with the settings of its workload, under its own name; a workload without
/// settings is told so.
pub proof fn buckets_take_the_settings(
    p: CloudflareKeyValue,
    workload: &str,
    identifier: &str,
    r: Result<BucketHandle, String>,
)
    requires
        call_ensures(CloudflareKeyValue::open, (&p, workload, identifier), r),
    ensures
        r is Ok <==> p.configs@.contains_key(workload@),
        r is Ok ==> {
            let c = p.configs@[workload@];
            &&& r->Ok_0.account_id@ == c.account_id@
            &&& r->Ok_0.api_token@ == c.api_token@
            &&& r->Ok_0.namespace@ == c.namespace@
            &&& r->Ok_0.identifier@ == identifier@
        },
        r is Err ==> r->Err_0@ == "No Cloudflare KV config found for workload '"@ + workload@
            + "'. Please configure account_id, api_token, and namespace in interface config."@,
{
}

} // verus!
