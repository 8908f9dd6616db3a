//! Blob containers over an object store that each workload configures. The data and names of
//! objects are those of `blobstore`.
use vstd::prelude::*;
pub use crate::blobstore::{OutgoingValueHandle, StreamObjectNamesHandle};
use crate::kv::{entries_but, settings_without};
use crate::table::{config_get, setting, Config, Table};
use crate::text::{cat2, cat3};
use crate::world::{bound_config, first_of_package, three, WitInterface, WitWorld};

verus! {

pub const PLUGIN_ID: &'static str = "wasi-blobstore-multi-backend";

/// What an operator is made from.
pub struct OperatorConfig {
    pub scheme: String,
    /// The settings besides the name of the backend.
    pub settings: Vec<(String, String)>,
}

/// The operator that a configuration asks for; it has to name its backend.
pub fn extract_config(config: &Config) -> (r: Result<OperatorConfig, String>)
    ensures
        match setting(config@, "backend"@) {
            None => r is Err && r->Err_0@ == "missing required config: 'backend'"@,
            Some(b) => r is Ok && r->Ok_0.scheme@ == b && crate::json::member_views(
                r->Ok_0.settings@,
            ) == entries_but(config.pairs(), "backend"@),
        },
{
    match config_get(config, "backend") {
        None => Err("missing required config: 'backend'".to_owned()),
        Some(scheme) => Ok(
            OperatorConfig { scheme, settings: settings_without(config, "backend") },
        ),
    }
}

/// Why an operator could not be made.
pub fn operator_error(backend: &str, unknown: bool, e: &str) -> (r: String)
    ensures
        r@ == (if unknown {
            "unknown backend '"@
        } else {
            "failed to create OpenDAL operator for backend '"@
        }) + backend@ + "': "@ + e@,
{
    let text = if unknown {
        "unknown backend '"
    } else {
        "failed to create OpenDAL operator for backend '"
    };
    crate::text::cat4(text, backend, "': ", e)
}

/// What the guest is told where its operator cannot be had.
pub fn operator_missing(e: &str) -> (r: String)
    ensures
        r@ == "failed to get operator: "@ + e@,
{
    cat2("failed to get operator: ", e)
}

pub struct CloudflareR2 {
    /// The workloads for which an operator is kept.
    pub operators: Table<()>,
}

/// What to do when a workload is bound.
pub enum BindAction {
    /// No interface of the plugin, or no backend is named.
    Nothing,
    /// An operator is kept already.
    Kept,
    Make(OperatorConfig),
}

impl CloudflareR2 {
    pub fn new() -> (r: CloudflareR2)
        ensures
            r.operators@ == Map::<Seq<char>, ()>::empty(),
    {
        CloudflareR2 { operators: Table::new() }
    }

    pub fn id(&self) -> (r: &'static str)
        ensures
            r@ == "wasi-blobstore-multi-backend"@,
    {
        PLUGIN_ID
    }

    pub fn world(&self) -> (r: WitWorld)
        ensures
            r.exports@.len() == 0,
            r.imports@.len() == 1,
            r.imports@[0].names(
                "wasi"@,
                "blobstore"@,
                seq!["blobstore"@, "container"@, "types"@],
                "0.2.0-draft"@,
            ),
    {
        let mut imports: Vec<WitInterface> = Vec::new();
        imports.push(
            WitInterface::of(
                "wasi",
                "blobstore",
                three("blobstore", "container", "types"),
                "0.2.0-draft",
            ),
        );
        WitWorld { imports, exports: Vec::new() }
    }

    /// What to do when a workload is bound: an operator is made once for each workload.
    pub fn on_workload_item_bind(&self, workload_id: &str, interfaces: &Vec<WitInterface>) -> (r:
        BindAction)
        ensures
            match first_of_package(interfaces@, "wasi"@, "blobstore"@) {
                None => r is Nothing,
                Some(i) => match setting(i.config@, "backend"@) {
                    None => r is Nothing,
                    Some(b) => if b.len() == 0 {
                        r is Nothing
                    } else if self.operators@.contains_key(workload_id@) {
                        r is Kept
                    } else {
                        match r {
                            BindAction::Make(c) => c.scheme@ == b && crate::json::member_views(
                                c.settings@,
                            ) == entries_but(i.config.pairs(), "backend"@),
                            _ => false,
                        }
                    },
                },
            },
    {
        let config = match bound_config(interfaces, "wasi", "blobstore") {
            None => {
                return BindAction::Nothing;
            },
            Some(c) => c,
        };
        match extract_config(&config) {
            Err(_) => BindAction::Nothing,
            Ok(c) => if c.scheme.as_str().is_empty() {
                BindAction::Nothing
            } else if self.operators.contains(workload_id) {
                BindAction::Kept
            } else {
                BindAction::Make(c)
            },
        }
    }

    /// Notes that an operator is kept for a workload.
    pub fn operator_made(&mut self, workload_id: &str)
        ensures
            final(self).operators@ == old(self).operators@.insert(workload_id@, ()),
    {
        self.operators.insert(workload_id.to_owned(), ());
    }

    /// Forgets the operator of a workload.
    pub fn on_workload_unbind(&mut self, workload_id: &str)
        ensures
            final(self).operators@ == old(self).operators@.remove(workload_id@),
    {
        let _ = self.operators.remove(workload_id);
    }

    /// Whether an operator is kept for a workload.
    pub fn get_operator(&self, workload_id: &str) -> (r: Result<(), String>)
        ensures
            if self.operators@.contains_key(workload_id@) {
                r is Ok
            } else {
                r is Err && r->Err_0@ == "No operator found for workload '"@ + workload_id@ + "'"@
            },
    {
        if self.operators.contains(workload_id) {
            Ok(())
        } else {
            Err(cat3("No operator found for workload '", workload_id, "'"))
        }
    }
}

impl Default for CloudflareR2 {
    fn default() -> (r: CloudflareR2)
        ensures
            r.operators@ == Map::<Seq<char>, ()>::empty(),
    {
        CloudflareR2::new()
    }
}

/// The plugin goes by its own name, and takes and gives the interfaces of its own package.
pub proof fn the_plugin_and_its_world(p: CloudflareR2, id: &'static str, w: WitWorld)
    requires
        call_ensures(CloudflareR2::id, (&p,), id),
        call_ensures(CloudflareR2::world, (&p,), w),
    ensures
        id@ == "wasi-blobstore-multi-backend"@,
        w.exports@.len() == 0,
        w.imports@.len() == 1,
        w.imports@[0].names(
            "wasi"@,
            "blobstore"@,
            seq!["blobstore"@, "container"@, "types"@],
            "0.2.0-draft"@,
        ),
{
}

/// A store is made for a workload that names a backend and has none yet, with that scheme and all
/// other settings; one that has a store keeps it.
pub proof fn stores_are_made_once(
    p: CloudflareR2,
    workload: &str,
    interfaces: &Vec<WitInterface>,
    r: BindAction,
)
    requires
        call_ensures(CloudflareR2::on_workload_item_bind, (&p, workload, interfaces), r),
    ensures
        r is Make ==> !p.operators@.contains_key(workload@),
        r is Kept ==> p.operators@.contains_key(workload@),
        match r {
            BindAction::Make(c) => {
                let m = first_of_package(interfaces@, "wasi"@, "blobstore"@)->0.config@;
                &&& first_of_package(interfaces@, "wasi"@, "blobstore"@) is Some
                &&& m.contains_key("backend"@) && m["backend"@]@.len() > 0
                &&& c.scheme@ == m["backend"@]@
            },
            BindAction::Kept => first_of_package(interfaces@, "wasi"@, "blobstore"@) is Some,
            BindAction::Nothing => match first_of_package(interfaces@, "wasi"@, "blobstore"@) {
                Some(i) => !i.config@.contains_key("backend"@) || i.config@["backend"@]@.len() == 0,
                None => true,
            },
        },
{
}

/// A configuration needs a backend.
pub proof fn stores_need_a_backend(config: &Config, r: Result<OperatorConfig, String>)
    requires
        call_ensures(extract_config, (config,), r),
    ensures
        r is Ok <==> config@.contains_key("backend"@),
        r is Ok ==> r->Ok_0.scheme@ == config@["backend"@]@,
        r is Err ==> r->Err_0@ == "missing required config: 'backend'"@,
{
}

} // verus!
