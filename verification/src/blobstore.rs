//! Blob containers over several backends: the data, names and uploads of objects, and which
//! backend a configuration asks for.
use vstd::prelude::*;
use crate::kv::{entries_but, setting_or, settings_without};
use crate::nats_utils::{auth_of, build_nats_connect_options, certificate_of, configured_seed_error, pair_view, NatsAuthView, NatsOptions};
use crate::table::{config_get, lemma_put, lookup, outside_workload, put_at, setting, Config, Owned, Table, Tracker};
use crate::text::{cat2, cat3, cat4, chars_of, opt_view, same, text_of, views};
use crate::world::{bound_config, first_of_package, three, WitInterface, WitWorld};

verus! {

pub const PLUGIN_ID: &'static str = "wasi-blobstore-multi-backend";

// ---- Names ----

/// A stream of the names of objects.
pub struct StreamObjectNamesHandle {
    pub objects: Vec<String>,
    pub position: usize,
}

/// How many names a request for `n` moves the stream on by.
pub open spec fn step_of(len: int, position: int, n: int) -> int {
    let remaining = if position <= len {
        len - position
    } else {
        0
    };
    if n < remaining {
        n
    } else {
        remaining
    }
}

impl StreamObjectNamesHandle {
    /// A stream that stands at its first name.
    pub fn over(objects: Vec<String>) -> (r: StreamObjectNamesHandle)
        ensures
            r.objects == objects,
            r.position == 0,
    {
        StreamObjectNamesHandle { objects, position: 0 }
    }

    fn advance(&self, n: u64) -> (r: usize)
        ensures
            r == step_of(self.objects@.len() as int, self.position as int, n as int),
    {
        let len: usize = self.objects.len();
        let remaining: usize = if self.position <= len {
            len - self.position
        } else {
            0
        };
        if n < remaining as u64 {
            n as usize
        } else {
            remaining
        }
    }

    /// The next names, at most `len` of them, and whether the stream is at its end.
    pub fn read_stream_object_names(&mut self, len: u64) -> (r: (Vec<String>, bool))
        ensures
            ({
                let step = step_of(old(self).objects@.len() as int, old(self).position as int, len as int);
                &&& final(self).objects == old(self).objects
                &&& final(self).position == old(self).position + step
                &&& r.0@.len() == step
                &&& forall|i: int|
                    0 <= i < step ==> #[trigger] r.0@[i] == old(self).objects@[old(self).position
                        + i]
                &&& r.1 == (final(self).position >= final(self).objects@.len())
            }),
    {
        let step: usize = self.advance(len);
        let total: usize = self.objects.len();
        let mut names: Vec<String> = Vec::new();
        let mut i: usize = 0;
        while i < step
            invariant
                i <= step,
                step == step_of(self.objects@.len() as int, self.position as int, len as int),
                self.objects@.len() == total,
                names@.len() == i,
                forall|k: int| 0 <= k < i ==> #[trigger] names@[k] == self.objects@[self.position
                    + k],
            decreases step - i,
        {
            names.push(self.objects[self.position + i].clone());
            i = i + 1;
        }
        self.position = self.position + step;
        let end = self.position >= total;
        (names, end)
    }

    /// Passes over at most `num` names; says how many, and whether the stream is at its end.
    pub fn skip_stream_object_names(&mut self, num: u64) -> (r: (u64, bool))
        ensures
            ({
                let step = step_of(old(self).objects@.len() as int, old(self).position as int, num as int);
                &&& final(self).objects == old(self).objects
                &&& final(self).position == old(self).position + step
                &&& r.0 == step
                &&& r.1 == (final(self).position >= final(self).objects@.len())
            }),
    {
        let step: usize = self.advance(num);
        let n: usize = self.objects.len();
        if self.position <= n {
            self.position = self.position + step;
        }
        let end = self.position >= n;
        (step as u64, end)
    }
}

/// A name without the slashes at its end.
pub open spec fn bare_name(name: Seq<char>) -> Seq<char>
    decreases name.len(),
{
    if name.len() > 0 && name.last() == '/' {
        bare_name(name.drop_last())
    } else {
        name
    }
}

/// The names of the objects among the entries of a listing.
pub open spec fn object_names(raw: Seq<Seq<char>>) -> Seq<Seq<char>>
    decreases raw.len(),
{
    if raw.len() == 0 {
        raw
    } else if bare_name(raw.last()).len() == 0 {
        object_names(raw.drop_last())
    } else {
        object_names(raw.drop_last()).push(bare_name(raw.last()))
    }
}

fn strip_slashes(name: &str) -> (r: String)
    ensures
        r@ == bare_name(name@),
{
    let v = chars_of(name);
    let mut n: usize = v.len();
    assert(v@.take(v@.len() as int) == v@);
    while n > 0 && v[n - 1] == '/'
        invariant
            n <= v@.len(),
            bare_name(v@) == bare_name(v@.take(n as int)),
        decreases n,
    {
        assert(v@.take(n as int).drop_last() == v@.take(n - 1));
        n = n - 1;
    }
    assert(v@.subrange(0, n as int) == v@.take(n as int));
    text_of(&v, 0, n)
}

/// The names of the objects among the entries of a listing: without slashes at their end, and
/// without those that have nothing else.
pub fn list_names(raw: &Vec<String>) -> (r: Vec<String>)
    ensures
        views(r@) == object_names(views(raw@)),
{
    let ghost rv = views(raw@);
    let mut out: Vec<String> = Vec::new();
    let mut i: usize = 0;
    assert(views(out@) =~= object_names(rv.take(0)));
    while i < raw.len()
        invariant
            i <= raw@.len(),
            rv == views(raw@),
            views(out@) == object_names(rv.take(i as int)),
        decreases raw@.len() - i,
    {
        assert(rv.take(i + 1).drop_last() == rv.take(i as int));
        assert(rv[i as int] == raw@[i as int]@);
        let name = strip_slashes(&raw[i]);
        if !name.as_str().is_empty() {
            let ghost before = out@;
            out.push(name);
            assert(views(out@) =~= views(before).push(name@));
        }
        i = i + 1;
    }
    assert(rv.take(rv.len() as int) == rv);
    out
}

// ---- Data ----

pub open spec fn clipped(n: u64, len: int) -> int {
    if n < len {
        n as int
    } else {
        len
    }
}

/// The bytes from one place to another, as far as there are some.
pub open spec fn slice_of(data: Seq<u8>, start: u64, end: u64) -> Seq<u8> {
    let s = clipped(start, data.len() as int);
    let e = clipped(end, data.len() as int);
    if s <= e {
        data.subrange(s, e)
    } else {
        Seq::<u8>::empty()
    }
}

/// The bytes of an object from one place to another.
pub fn data_slice(data: &Vec<u8>, start: u64, end: u64) -> (r: Vec<u8>)
    ensures
        r@ == slice_of(data@, start, end),
{
    let n: usize = data.len();
    let s: usize = if start < n as u64 {
        start as usize
    } else {
        n
    };
    let e: usize = if end < n as u64 {
        end as usize
    } else {
        n
    };
    let mut out: Vec<u8> = Vec::new();
    if s <= e {
        let mut i: usize = s;
        while i < e
            invariant
                s <= i <= e,
                e <= data@.len(),
                out@ == data@.subrange(s as int, i as int),
            decreases e - i,
        {
            out.push(data[i]);
            i = i + 1;
            assert(data@.subrange(s as int, i as int) =~= data@.subrange(s as int, i - 1).push(
                data@[i - 1],
            ));
        }
    }
    assert(out@ =~= slice_of(data@, start, end));
    out
}

/// How many bytes a value holds at most.
pub const MAX_VALUE_BYTES: usize = 10_485_760;

/// A value being written: it is uploaded once both names are known.
pub struct OutgoingValueHandle {
    pub container_name: Option<String>,
    pub object_name: Option<String>,
    pub data: Vec<u8>,
}

/// An object to upload.
pub struct Upload {
    pub container: String,
    pub object: String,
    pub data: Vec<u8>,
}

impl OutgoingValueHandle {
    pub fn new_outgoing_value() -> (r: OutgoingValueHandle)
        ensures
            r.container_name is None,
            r.object_name is None,
            r.data@ == Seq::<u8>::empty(),
    {
        OutgoingValueHandle { container_name: None, object_name: None, data: Vec::new() }
    }

    /// Names the object that the value is for; an earlier name is forgotten.
    pub fn write_data(&mut self, container: &str, name: &str)
        ensures
            opt_view(final(self).container_name) == Some(container@),
            opt_view(final(self).object_name) == Some(name@),
            final(self).data == old(self).data,
    {
        self.container_name = Some(container.to_owned());
        self.object_name = Some(name.to_owned());
    }

    /// Adds bytes to the value; bytes for which there is no room are refused.
    pub fn write_body(&mut self, bytes: &Vec<u8>) -> (added: bool)
        ensures
            final(self).container_name == old(self).container_name,
            final(self).object_name == old(self).object_name,
            added == (old(self).data@.len() + bytes@.len() <= MAX_VALUE_BYTES),
            final(self).data@ == if added {
                old(self).data@ + bytes@
            } else {
                old(self).data@
            },
    {
        let held: usize = self.data.len();
        if held > MAX_VALUE_BYTES || bytes.len() > MAX_VALUE_BYTES - held {
            return false;
        }
        let ghost before = self.data@;
        let ghost names = (self.container_name, self.object_name);
        let mut i: usize = 0;
        assert(self.data@ =~= before + bytes@.take(0));
        while i < bytes.len()
            invariant
                i <= bytes@.len(),
                (self.container_name, self.object_name) == names,
                self.data@ == before + bytes@.take(i as int),
            decreases bytes@.len() - i,
        {
            self.data.push(bytes[i]);
            assert(self.data@ =~= before + bytes@.take(i + 1));
            i = i + 1;
        }
        assert(bytes@.take(bytes@.len() as int) == bytes@);
        true
    }

    /// What to upload once the value is finished or dropped; nothing where it was never named.
    pub fn finish(self) -> (r: Option<Upload>)
        ensures
            match r {
                Some(u) => self.container_name == Some(u.container) && self.object_name == Some(
                    u.object,
                ) && u.data == self.data,
                None => self.container_name is None || self.object_name is None,
            },
    {
        match (self.container_name, self.object_name) {
            (Some(container), Some(object)) => Some(Upload { container, object, data: self.data }),
            _ => None,
        }
    }
}

/// The path of a container.
pub fn container_path(name: &str) -> (r: String)
    ensures
        r@ == name@ + "/"@,
{
    cat2(name, "/")
}

/// The path of an object.
pub fn object_path(container: &str, object: &str) -> (r: String)
    ensures
        r@ == container@ + "/"@ + object@,
{
    cat3(container, "/", object)
}

#[derive(Debug)]
pub struct ContainerMetadata {
    pub name: String,
    pub created_at: u64,
}

#[derive(Debug)]
pub struct ObjectMetadata {
    pub name: String,
    pub container: String,
    pub created_at: u64,
    pub size: u64,
}

/// What is known of a container: not when it was made.
pub fn info(name: &str) -> (r: ContainerMetadata)
    ensures
        r.name@ == name@,
        r.created_at == 0,
{
    ContainerMetadata { name: name.to_owned(), created_at: 0 }
}

/// A time in milliseconds as a 64-bit number: zero where there is none, a negative one by its bits.
pub open spec fn millis_of(t: Option<i64>) -> int {
    match t {
        None => 0,
        Some(n) => if n < 0 {
            n + 0x1_0000_0000_0000_0000
        } else {
            n as int
        },
    }
}

/// What is known of an object.
pub fn object_info(container: &str, name: &str, modified_ms: Option<i64>, size: u64) -> (r:
    ObjectMetadata)
    ensures
        r.name@ == name@,
        r.container@ == container@,
        r.created_at == millis_of(modified_ms),
        r.size == size,
{
    let created_at: u64 = match modified_ms {
        None => 0,
        Some(n) => if n < 0 {
            u64::MAX - ((-(n + 1)) as u64)
        } else {
            n as u64
        },
    };
    ObjectMetadata { name: name.to_owned(), container: container.to_owned(), created_at, size }
}

// ---- Outcomes ----

#[derive(Clone, Copy, Debug, PartialEq, Eq, Structural)]
pub enum EngineKind {
    OpenDal,
    Nats,
}

/// What is done with a container or its objects.
pub enum BlobStep {
    CreateContainer,
    DeleteContainer,
    Copy,
    Move,
    List,
    DeleteObject,
    Clear,
    Upload,
}

pub open spec fn step_text(s: BlobStep) -> Seq<char> {
    match s {
        BlobStep::CreateContainer => "failed to create container: "@,
        BlobStep::DeleteContainer => "failed to delete container: "@,
        BlobStep::Copy => "failed to copy object: "@,
        BlobStep::Move => "failed to move object: "@,
        BlobStep::List => "failed to list objects: "@,
        BlobStep::DeleteObject => "failed to delete object: "@,
        BlobStep::Clear => "failed to clear container: "@,
        BlobStep::Upload => "failed to upload object: "@,
    }
}

/// Whether a failure is passed over: directories of OpenDAL need not be made or removed.
pub open spec fn forgiven(s: BlobStep, kind: EngineKind) -> bool {
    kind == EngineKind::OpenDal && (s is CreateContainer || s is DeleteContainer)
}

/// What the guest is told of a step.
pub fn step_outcome(step: BlobStep, kind: EngineKind, done: Result<(), String>) -> (r: Result<
    (),
    String,
>)
    ensures
        match done {
            Ok(_) => r is Ok,
            Err(e) => if forgiven(step, kind) {
                r is Ok
            } else {
                r is Err && r->Err_0@ == step_text(step) + e@
            },
        },
{
    match done {
        Ok(_) => Ok(()),
        Err(e) => {
            let (text, create_or_delete) = match step {
                BlobStep::CreateContainer => ("failed to create container: ", true),
                BlobStep::DeleteContainer => ("failed to delete container: ", true),
                BlobStep::Copy => ("failed to copy object: ", false),
                BlobStep::Move => ("failed to move object: ", false),
                BlobStep::List => ("failed to list objects: ", false),
                BlobStep::DeleteObject => ("failed to delete object: ", false),
                BlobStep::Clear => ("failed to clear container: ", false),
                BlobStep::Upload => ("failed to upload object: ", false),
            };
            if create_or_delete && matches!(kind, EngineKind::OpenDal) {
                Ok(())
            } else {
                Err(cat2(text, &e))
            }
        },
    }
}

/// What the guest is told of the deletion of one of several objects.
pub fn delete_one_error(name: &str, e: &str) -> (r: String)
    ensures
        r@ == "failed to delete object '"@ + name@ + "': "@ + e@,
{
    cat4("failed to delete object '", name, "': ", e)
}

/// Why a container of NATS could not be cleared: one of its objects could not be deleted.
pub fn clear_error(name: &str, container: &str, e: &str) -> (r: String)
    ensures
        r@ == "failed to delete object '"@ + name@ + "' in '"@ + container@ + "': "@ + e@,
{
    let head = cat4("failed to delete object '", name, "' in '", container);
    cat3(&head, "': ", e)
}

/// What the guest is told where its backend cannot be had.
pub fn engine_missing(e: &str) -> (r: String)
    ensures
        r@ == "failed to get engine: "@ + e@,
{
    cat2("failed to get engine: ", e)
}

/// What the guest is told where an object cannot be read.
pub fn not_found_error(name: &str, e: &str) -> (r: String)
    ensures
        r@ == "object '"@ + name@ + "' not found: "@ + e@,
{
    cat4("object '", name, "' not found: ", e)
}

/// What the guest is told of a check: OpenDAL takes a failed check for absence.
pub fn exists_outcome(container: bool, kind: EngineKind, found: Result<bool, String>) -> (r: Result<
    bool,
    String,
>)
    ensures
        match found {
            Ok(b) => r == Ok::<bool, String>(b),
            Err(e) => if kind == EngineKind::OpenDal {
                r == Ok::<bool, String>(false)
            } else {
                r is Err && r->Err_0@ == (if container {
                    "failed to check container: "@
                } else {
                    "failed to check object: "@
                }) + e@
            },
        },
{
    match found {
        Ok(b) => Ok(b),
        Err(e) => match kind {
            EngineKind::OpenDal => Ok(false),
            EngineKind::Nats => if container {
                Err(cat2("failed to check container: ", &e))
            } else {
                Err(cat2("failed to check object: ", &e))
            },
        },
    }
}

/// Whether a container is made when it is asked for: only NATS needs it, where it is not there.
pub fn creates_on_get(kind: EngineKind, exists: Option<bool>) -> (r: bool)
    ensures
        r == (kind == EngineKind::Nats && exists != Some(true)),
{
    match kind {
        EngineKind::OpenDal => false,
        EngineKind::Nats => match exists {
            Some(b) => !b,
            None => true,
        },
    }
}

/// What is done with an object store of NATS.
pub enum StoreStep {
    CreateStore,
    DeleteStore,
    GetStore,
    GetSourceStore,
    GetDestinationStore,
    GetObject,
    GetSourceObject,
    ReadObject,
    PutObject,
    PutDestination,
    DeleteObject,
    DeleteSource,
    ObjectInfo,
    ListObjects,
}

pub open spec fn store_text(s: StoreStep) -> Seq<char> {
    match s {
        StoreStep::CreateStore => "failed to create object store '"@,
        StoreStep::DeleteStore => "failed to delete object store '"@,
        StoreStep::GetStore => "failed to get object store '"@,
        StoreStep::GetSourceStore => "failed to get source object store '"@,
        StoreStep::GetDestinationStore => "failed to get destination object store '"@,
        StoreStep::GetObject => "failed to get object '"@,
        StoreStep::GetSourceObject => "failed to get source object '"@,
        StoreStep::ReadObject => "failed to read object '"@,
        StoreStep::PutObject => "failed to put object '"@,
        StoreStep::PutDestination => "failed to put object to destination '"@,
        StoreStep::DeleteObject => "failed to delete object '"@,
        StoreStep::DeleteSource => "failed to delete source object '"@,
        StoreStep::ObjectInfo => "failed to get object info '"@,
        StoreStep::ListObjects => "failed to list objects in '"@,
    }
}

/// The message of a failed step with a store or an object of a name.
pub fn store_error(step: StoreStep, name: &str, e: &str) -> (r: String)
    ensures
        r@ == store_text(step) + name@ + "': "@ + e@,
{
    let text = match step {
        StoreStep::CreateStore => "failed to create object store '",
        StoreStep::DeleteStore => "failed to delete object store '",
        StoreStep::GetStore => "failed to get object store '",
        StoreStep::GetSourceStore => "failed to get source object store '",
        StoreStep::GetDestinationStore => "failed to get destination object store '",
        StoreStep::GetObject => "failed to get object '",
        StoreStep::GetSourceObject => "failed to get source object '",
        StoreStep::ReadObject => "failed to read object '",
        StoreStep::PutObject => "failed to put object '",
        StoreStep::PutDestination => "failed to put object to destination '",
        StoreStep::DeleteObject => "failed to delete object '",
        StoreStep::DeleteSource => "failed to delete source object '",
        StoreStep::ObjectInfo => "failed to get object info '",
        StoreStep::ListObjects => "failed to list objects in '",
    };
    cat4(text, name, "': ", e)
}

// ---- Plugin ----

/// What a backend is made from.
pub enum BlobEngineConfig {
    Nats { url: String, options: NatsOptions },
    /// The settings besides the name of the backend.
    OpenDal { scheme: String, settings: Vec<(String, String)> },
}

/// `e` is the backend that a configuration asks for: `memory` where it names none.
pub open spec fn engine_of(e: BlobEngineConfig, c: Config) -> bool {
    let m = c@;
    let backend = setting_or(m, "backend"@, "memory"@);
    if backend == "nats"@ {
        match e {
            BlobEngineConfig::Nats { url, options } => url@ == setting_or(
                m,
                "nats_url"@,
                "nats://127.0.0.1:4222"@,
            ) && auth_of(m, configured_seed_error(m)) == Ok::<NatsAuthView, Seq<char>>(
                options.auth@,
            ) && opt_view(options.root_certificates) == setting(m, "nats_tls_ca"@) && pair_view(
                options.client_certificate,
            ) == certificate_of(m),
            _ => false,
        }
    } else {
        match e {
            BlobEngineConfig::OpenDal { scheme, settings } => scheme@ == backend
                && crate::json::member_views(settings@) == entries_but(c.pairs(), "backend"@),
            _ => false,
        }
    }
}

/// Why no backend can be made from a configuration.
pub open spec fn engine_error(m: Map<Seq<char>, String>) -> Option<Seq<char>> {
    if setting_or(m, "backend"@, "memory"@) == "nats"@ {
        match auth_of(m, configured_seed_error(m)) {
            Ok(_) => None,
            Err(e) => Some(e),
        }
    } else {
        None
    }
}

/// The backend that a configuration asks for.
pub fn engine_config(config: &Config) -> (r: Result<BlobEngineConfig, String>)
    ensures
        match r {
            Ok(e) => engine_error(config@) is None && engine_of(e, *config),
            Err(e) => engine_error(config@) == Some(e@),
        },
{
    let backend = match config_get(config, "backend") {
        Some(b) => b,
        None => "memory".to_owned(),
    };
    if same(&backend, "nats") {
        let url = match config_get(config, "nats_url") {
            Some(u) => u,
            None => "nats://127.0.0.1:4222".to_owned(),
        };
        match build_nats_connect_options(config) {
            Err(e) => Err(e),
            Ok(options) => Ok(BlobEngineConfig::Nats { url, options }),
        }
    } else {
        let settings = settings_without(config, "backend");
        Ok(BlobEngineConfig::OpenDal { scheme: backend, settings })
    }
}

pub struct ComponentData {
    pub interface_config: Config,
    /// Whether a backend was made for the component.
    pub has_engine: bool,
}

pub struct CustomBlobstore {
    pub tracker: Tracker<ComponentData>,
}

/// Where the backend of a component comes from.
pub enum EngineSource {
    Kept,
    Make(BlobEngineConfig),
}

impl CustomBlobstore {
    pub fn new() -> (r: CustomBlobstore)
        ensures
            r.tracker@ == Map::<Seq<char>, Owned<ComponentData>>::empty(),
    {
        CustomBlobstore { tracker: Table::new() }
    }

    pub fn id(&self) -> (r: &'static str)
        ensures
            r@ == "wasi-blobstore-multi-backend"@,
    {
        PLUGIN_ID
    }

    pub fn world(&self) -> (r: WitWorld)
        ensures
            r.imports@.len() == 0,
            r.exports@.len() == 1,
            r.exports@[0].names(
                "wasi"@,
                "blobstore"@,
                seq!["blobstore"@, "container"@, "types"@],
                "0.2.0-draft"@,
            ),
    {
        let mut exports: Vec<WitInterface> = Vec::new();
        exports.push(
            WitInterface::of(
                "wasi",
                "blobstore",
                three("blobstore", "container", "types"),
                "0.2.0-draft",
            ),
        );
        WitWorld { imports: Vec::new(), exports }
    }

    /// Begins to track a component that brings a `wasi:blobstore` interface.
    pub fn on_workload_item_bind(
        &mut self,
        component_id: &str,
        workload_id: &str,
        is_component: bool,
        interfaces: &Vec<WitInterface>,
    ) -> (bound: bool)
        ensures
            bound == (is_component && first_of_package(interfaces@, "wasi"@, "blobstore"@) is Some),
            !bound ==> final(self).tracker@ == old(self).tracker@,
            bound ==> put_at(old(self).tracker@, final(self).tracker@, component_id@) && ({
                let o = final(self).tracker@[component_id@];
                &&& o.workload_id@ == workload_id@
                &&& o.data.interface_config@ == first_of_package(
                    interfaces@,
                    "wasi"@,
                    "blobstore"@,
                )->0.config@
                &&& !o.data.has_engine
            }),
    {
        if let Some(interface_config) = bound_config(interfaces, "wasi", "blobstore") {
            if is_component {
                let owned = Owned {
                    workload_id: workload_id.to_owned(),
                    data: ComponentData { interface_config, has_engine: false },
                };
                proof {
                    lemma_put(self.tracker@, component_id@, owned);
                }
                self.tracker.insert(component_id.to_owned(), owned);
                return true;
            }
        }
        false
    }

    /// Forgets the components of a workload.
    pub fn on_workload_unbind(&mut self, workload_id: &str)
        ensures
            final(self).tracker@ == outside_workload(old(self).tracker@, workload_id@),
    {
        let _ = self.tracker.remove_workload(workload_id);
    }

    /// Where the backend of a component comes from: it is made once and then kept.
    pub fn get_engine(&self, component_id: &str) -> (r: Result<EngineSource, String>)
        ensures
            match lookup(self.tracker@, component_id@) {
                None => r is Err && r->Err_0@ == "No blobstore config found for component '"@
                    + component_id@ + "'"@,
                Some(o) => if o.data.has_engine {
                    r is Ok && r->Ok_0 is Kept
                } else {
                    match r {
                        Ok(EngineSource::Make(e)) => engine_error(o.data.interface_config@) is None
                            && engine_of(e, o.data.interface_config),
                        Ok(EngineSource::Kept) => false,
                        Err(e) => engine_error(o.data.interface_config@) == Some(e@),
                    }
                },
            },
    {
        match self.tracker.get(component_id) {
            None => Err(cat3("No blobstore config found for component '", component_id, "'")),
            Some(o) => if o.data.has_engine {
                Ok(EngineSource::Kept)
            } else {
                match engine_config(&o.data.interface_config) {
                    Ok(e) => Ok(EngineSource::Make(e)),
                    Err(e) => Err(e),
                }
            },
        }
    }

    /// Notes that a backend is kept for a component.
    pub fn engine_made(&mut self, component_id: &str)
        ensures
            match lookup(old(self).tracker@, component_id@) {
                None => final(self).tracker@ == old(self).tracker@,
                Some(o) => put_at(old(self).tracker@, final(self).tracker@, component_id@) && ({
                    let n = final(self).tracker@[component_id@];
                    &&& n.workload_id == o.workload_id
                    &&& n.data.interface_config == o.data.interface_config
                    &&& n.data.has_engine
                }),
            },
    {
        let ghost before = self.tracker@;
        match self.tracker.remove(component_id) {
            None => {
                assert(before.remove(component_id@) =~= before);
            },
            Some(o) => {
                let owned = Owned {
                    workload_id: o.workload_id,
                    data: ComponentData {
                        interface_config: o.data.interface_config,
                        has_engine: true,
                    },
                };
                proof {
                    lemma_put(before, component_id@, owned);
                }
                self.tracker.insert(component_id.to_owned(), owned);
            },
        }
    }
}

impl Default for CustomBlobstore {
    fn default() -> (r: CustomBlobstore)
        ensures
            r.tracker@ == Map::<Seq<char>, Owned<ComponentData>>::empty(),
    {
        CustomBlobstore::new()
    }
}

// ---- Laws ----

/// Reading on in two steps moves the stream as far as reading on in one.
pub proof fn steps_add_up(len: int, position: int, a: int, b: int)
    requires
        0 <= position <= len,
        0 <= a,
        0 <= b,
    ensures
        step_of(len, position, a) + step_of(len, position + step_of(len, position, a), b) == step_of(
            len,
            position,
            a + b,
        ),
{
}

/// A stream never moves past its end, and stands there once everything was read.
pub proof fn streams_stop_at_their_end(len: int, position: int, n: int)
    requires
        0 <= position <= len,
        0 <= n,
    ensures
        position + step_of(len, position, n) <= len,
        n >= len - position ==> position + step_of(len, position, n) == len,
{
}

/// Two neighbouring slices of an object are one slice.
pub proof fn slices_join(data: Seq<u8>, a: u64, b: u64, c: u64)
    requires
        a <= b <= c,
    ensures
        slice_of(data, a, b) + slice_of(data, b, c) == slice_of(data, a, c),
{
    assert(slice_of(data, a, b) + slice_of(data, b, c) =~= slice_of(data, a, c));
}

/// The whole of an object is one slice.
pub proof fn a_slice_can_be_everything(data: Seq<u8>, end: u64)
    requires
        data.len() <= end,
    ensures
        slice_of(data, 0, end) == data,
{
    assert(slice_of(data, 0, end) =~= data);
}

/// No name of a listing is empty or ends with a slash.
pub proof fn listed_names_are_bare(raw: Seq<Seq<char>>, i: int)
    requires
        0 <= i < object_names(raw).len(),
    ensures
        object_names(raw)[i].len() > 0,
        object_names(raw)[i].last() != '/',
    decreases raw.len(),
{
    let rest = object_names(raw.drop_last());
    if i < rest.len() {
        listed_names_are_bare(raw.drop_last(), i);
    } else {
        lemma_bare(raw.last());
    }
}

proof fn lemma_bare(name: Seq<char>)
    ensures
        bare_name(name).len() > 0 ==> bare_name(name).last() != '/',
    decreases name.len(),
{
    if name.len() > 0 && name.last() == '/' {
        lemma_bare(name.drop_last());
    }
}

/// A step through the names takes as many as are asked for, or those that are left.
pub proof fn steps_take_what_is_left(len: int, position: int, n: int)
    requires
        0 <= position,
        0 <= len,
        0 <= n,
    ensures
        position <= len && n <= len - position ==> step_of(len, position, n) == n,
        position <= len && n > len - position ==> step_of(len, position, n) == len - position,
        position > len ==> step_of(len, position, n) == 0,
{
}

/// A name without slashes at its end is kept, and slashes at the end are taken off, all of them.
pub proof fn slashes_at_the_end_are_taken_off(name: Seq<char>)
    ensures
        bare_name(name.push('/')) == bare_name(name),
        name.len() > 0 && name.last() != '/' ==> bare_name(name) == name,
        bare_name(name).len() > 0 ==> bare_name(name).last() != '/',
        bare_name(name).is_prefix_of(name),
    decreases name.len(),
{
    assert(name.push('/').drop_last() =~= name);
    if name.len() > 0 && name.last() == '/' {
        slashes_at_the_end_are_taken_off(name.drop_last());
        let b = bare_name(name);
        let d = name.drop_last();
        assert(name.subrange(0, b.len() as int) =~= d.subrange(0, b.len() as int));
    } else {
        assert(name.subrange(0, name.len() as int) =~= name);
    }
}

/// The names of objects come in order, without slashes at the end; a name of slashes alone is none.
pub proof fn names_keep_their_order(raw: Seq<Seq<char>>, more: Seq<char>)
    ensures
        bare_name(more).len() > 0 ==> object_names(raw.push(more)) == object_names(raw).push(
            bare_name(more),
        ),
        bare_name(more).len() == 0 ==> object_names(raw.push(more)) == object_names(raw),
        object_names(Seq::<Seq<char>>::empty()).len() == 0,
{
    assert(raw.push(more).drop_last() =~= raw);
}

/// A part of the data is the bytes from its start up to its end, as far as there are any.
pub proof fn parts_of_data(data: Seq<u8>, start: u64, end: u64, i: int)
    ensures
        start <= end <= data.len() ==> slice_of(data, start, end).len() == end - start,
        start <= data.len() < end ==> slice_of(data, start, end).len() == data.len() - start,
        start > data.len() || end < start ==> slice_of(data, start, end).len() == 0,
        0 <= i < slice_of(data, start, end).len() ==> slice_of(data, start, end)[i] == data[start + i],
{
}

/// A time is its milliseconds; a missing one is nought, and one before the epoch is taken as 64
/// bits are.
pub proof fn times_are_milliseconds(n: i64)
    ensures
        millis_of(None) == 0,
        n >= 0 ==> millis_of(Some(n)) == n,
        n < 0 ==> millis_of(Some(n)) == 0x1_0000_0000_0000_0000 + n,
{
}

/// A step that failed is named.
pub proof fn failed_steps_are_named(s: BlobStep)
    ensures
        s is CreateContainer ==> step_text(s) == "failed to create container: "@,
        s is DeleteContainer ==> step_text(s) == "failed to delete container: "@,
        s is Copy ==> step_text(s) == "failed to copy object: "@,
        s is Move ==> step_text(s) == "failed to move object: "@,
        s is List ==> step_text(s) == "failed to list objects: "@,
        s is DeleteObject ==> step_text(s) == "failed to delete object: "@,
        s is Clear ==> step_text(s) == "failed to clear container: "@,
        s is Upload ==> step_text(s) == "failed to upload object: "@,
{
}

/// A backend without containers forgives that one cannot be made or removed; nothing else is
/// forgiven.
pub proof fn only_containers_are_forgiven(s: BlobStep, kind: EngineKind)
    ensures
        forgiven(s, kind) ==> kind is OpenDal,
        s is Copy || s is Move || s is List || s is DeleteObject || s is Clear || s is Upload
            ==> !forgiven(s, kind),
        kind is OpenDal && (s is CreateContainer || s is DeleteContainer) ==> forgiven(s, kind),
        kind is Nats ==> !forgiven(s, kind),
{
}

/// A step of a NATS store that failed is named.
pub proof fn failed_store_steps_are_named(s: StoreStep)
    ensures
        s is CreateStore ==> store_text(s) == "failed to create object store '"@,
        s is DeleteStore ==> store_text(s) == "failed to delete object store '"@,
        s is GetStore ==> store_text(s) == "failed to get object store '"@,
        s is GetSourceStore ==> store_text(s) == "failed to get source object store '"@,
        s is GetDestinationStore ==> store_text(s) == "failed to get destination object store '"@,
        s is GetObject ==> store_text(s) == "failed to get object '"@,
        s is GetSourceObject ==> store_text(s) == "failed to get source object '"@,
        s is ReadObject ==> store_text(s) == "failed to read object '"@,
        s is PutObject ==> store_text(s) == "failed to put object '"@,
        s is PutDestination ==> store_text(s) == "failed to put object to destination '"@,
        s is DeleteObject ==> store_text(s) == "failed to delete object '"@,
        s is DeleteSource ==> store_text(s) == "failed to delete source object '"@,
        s is ObjectInfo ==> store_text(s) == "failed to get object info '"@,
        s is ListObjects ==> store_text(s) == "failed to list objects in '"@,
{
}

/// A store is opened with the settings of its backend; without a backend it is kept in memory.
pub proof fn engines_take_their_settings(e: BlobEngineConfig, c: Config)
    requires
        engine_of(e, c),
    ensures
        c@.contains_key("backend"@) && c@["backend"@]@ == "nats"@ ==> match e {
            BlobEngineConfig::Nats { url, options } => {
                &&& c@.contains_key("nats_url"@) ==> url@ == c@["nats_url"@]@
                &&& !c@.contains_key("nats_url"@) ==> url@ == "nats://127.0.0.1:4222"@
                &&& c@.contains_key("nats_tls_ca"@) ==> options.root_certificates is Some
                    && options.root_certificates->0@ == c@["nats_tls_ca"@]@
                &&& !c@.contains_key("nats_tls_ca"@) ==> options.root_certificates is None
                &&& auth_of(c@, configured_seed_error(c@)) == Ok::<NatsAuthView, Seq<char>>(
                    options.auth@,
                )
            },
            _ => false,
        },
        c@.contains_key("backend"@) && c@["backend"@]@ != "nats"@ ==> match e {
            BlobEngineConfig::OpenDal { scheme, settings } => scheme@ == c@["backend"@]@
                && crate::json::member_views(settings@) == entries_but(c.pairs(), "backend"@),
            _ => false,
        },
        !c@.contains_key("backend"@) ==> match e {
            BlobEngineConfig::OpenDal { scheme, .. } => scheme@ == "memory"@,
            _ => false,
        },
{
    reveal_strlit("nats");
    reveal_strlit("memory");
    assert("memory"@.len() != "nats"@.len());
}

/// A store is refused only for the credentials of a NATS server.
pub proof fn only_credentials_are_refused(m: Map<Seq<char>, String>)
    ensures
        match engine_error(m) {
            Some(e) => m.contains_key("backend"@) && m["backend"@]@ == "nats"@ && auth_of(
                m,
                configured_seed_error(m),
            ) == Err::<NatsAuthView, Seq<char>>(e),
            None => !m.contains_key("backend"@) || m["backend"@]@ != "nats"@ || auth_of(
                m,
                configured_seed_error(m),
            ) is Ok,
        },
{
    reveal_strlit("nats");
    reveal_strlit("memory");
    assert("memory"@.len() != "nats"@.len());
}

/// The path of an object lies under the path of its container, and is that path and its name.
pub proof fn objects_lie_in_their_container(container: &str, object: &str, a: String, b: String)
    requires
        call_ensures(container_path, (container,), a),
        call_ensures(object_path, (container, object), b),
    ensures
        a@ == container@ + "/"@,
        b@ == a@ + object@,
{
}

/// A check that fails counts as nothing found in a backend without containers, and is an error in
/// the other; one that succeeds is its own answer.
pub proof fn failed_checks_find_nothing(
    container: bool,
    kind: EngineKind,
    found: Result<bool, String>,
    r: Result<bool, String>,
)
    requires
        call_ensures(exists_outcome, (container, kind, found), r),
    ensures
        found is Ok ==> r == found,
        found is Err && kind is OpenDal ==> r == Ok::<bool, String>(false),
        found is Err && kind is Nats ==> r is Err,
        found is Err && kind is Nats && container ==> r->Err_0@ == "failed to check container: "@
            + found->Err_0@,
        found is Err && kind is Nats && !container ==> r->Err_0@ == "failed to check object: "@
            + found->Err_0@,
{
}

/// The plugin goes by its own name, and takes and gives the interfaces of its own package.
pub proof fn the_plugin_and_its_world(p: CustomBlobstore, id: &'static str, w: WitWorld)
    requires
        call_ensures(CustomBlobstore::id, (&p,), id),
        call_ensures(CustomBlobstore::world, (&p,), w),
    ensures
        id@ == "wasi-blobstore-multi-backend"@,
        w.imports@.len() == 0,
        w.exports@.len() == 1,
        w.exports@[0].names(
            "wasi"@,
            "blobstore"@,
            seq!["blobstore"@, "container"@, "types"@],
            "0.2.0-draft"@,
        ),
{
}

/// A step that fails is an error by its name, but for containers in a backend that has none; one
/// that succeeds is no error.
pub proof fn failed_steps_are_errors(
    step: BlobStep,
    kind: EngineKind,
    done: Result<(), String>,
    r: Result<(), String>,
)
    requires
        call_ensures(step_outcome, (step, kind, done), r),
    ensures
        done is Ok ==> r is Ok,
        done is Err && kind is Nats ==> r is Err && r->Err_0@ == step_text(step) + done->Err_0@,
        done is Err && kind is OpenDal && !(step is CreateContainer) && !(step is DeleteContainer)
            ==> r is Err && r->Err_0@ == step_text(step) + done->Err_0@,
        done is Err && kind is OpenDal && (step is CreateContainer || step is DeleteContainer) ==> r
            is Ok,
{
}

/// The messages of what failed name the object, and its container where it has one.
pub proof fn failed_objects_are_named(
    name: &str,
    container: &str,
    e: &str,
    a: String,
    b: String,
    c: String,
    d: String,
)
    requires
        call_ensures(delete_one_error, (name, e), a),
        call_ensures(clear_error, (name, container, e), b),
        call_ensures(engine_missing, (e,), c),
        call_ensures(not_found_error, (name, e), d),
    ensures
        a@ == "failed to delete object '"@ + name@ + "': "@ + e@,
        b@ == "failed to delete object '"@ + name@ + "' in '"@ + container@ + "': "@ + e@,
        c@ == "failed to get engine: "@ + e@,
        d@ == "object '"@ + name@ + "' not found: "@ + e@,
{
}

/// Only a NATS store makes a container that is asked for and not there.
pub proof fn missing_containers_are_made(kind: EngineKind, exists_already: Option<bool>, r: bool)
    requires
        call_ensures(creates_on_get, (kind, exists_already), r),
    ensures
        kind is OpenDal ==> !r,
        kind is Nats ==> (r <==> exists_already != Some(true)),
{
}

/// What is told of an object is its own name, container, time and size.
pub proof fn objects_are_told_as_they_are(
    container: &str,
    name: &str,
    modified: Option<i64>,
    size: u64,
    r: ObjectMetadata,
    c: ContainerMetadata,
)
    requires
        call_ensures(object_info, (container, name, modified, size), r),
        call_ensures(info, (name,), c),
    ensures
        r.name@ == name@ && r.container@ == container@ && r.size == size,
        modified is None ==> r.created_at == 0,
        modified is Some && modified->0 >= 0 ==> r.created_at == modified->0,
        c.name@ == name@ && c.created_at == 0,
{
}

/// A value goes where it was directed to, with all that was written into it.
pub proof fn values_go_where_they_were_directed(h: OutgoingValueHandle, r: Option<Upload>)
    requires
        call_ensures(OutgoingValueHandle::finish, (h,), r),
    ensures
        r is Some <==> h.container_name is Some && h.object_name is Some,
        r is Some ==> r->0.container@ == h.container_name->0@ && r->0.object@ == h.object_name->0@
            && r->0.data@ == h.data@,
{
}

/// A component that has an interface of the package is tracked for its workload, as one that has just
/// been bound; any other is not, and nothing else changes.
pub proof fn components_are_bound_for_their_workload(
    p: &mut CustomBlobstore,
    id: &str,
    workload: &str,
    is_component: bool,
    interfaces: &Vec<WitInterface>,
    bound: bool,
    other: Seq<char>,
)
    requires
        call_ensures(
            CustomBlobstore::on_workload_item_bind,
            (p, id, workload, is_component, interfaces),
            bound,
        ),
        other != id@,
    ensures
        bound <==> is_component && first_of_package(interfaces@, "wasi"@, "blobstore"@) is Some,
        !bound ==> final(p).tracker@ == old(p).tracker@,
        lookup(final(p).tracker@, other) == lookup(old(p).tracker@, other),
        bound ==> {
            let o = final(p).tracker@[id@];
            &&& final(p).tracker@.contains_key(id@)
            &&& o.workload_id@ == workload@
            &&& o.data.interface_config@ == first_of_package(interfaces@, "wasi"@, "blobstore"@)->0.config@
            &&& !o.data.has_engine
        },
{
    if bound {
        crate::table::putting_leaves_the_others(old(p).tracker@, final(p).tracker@, id@, other);
    }
}

/// A read of names gives those that come next, as many as asked for or as are left, and says whether
/// that was all; skipping moves on as far as reading would.
pub proof fn names_are_read_on(
    a: &mut StreamObjectNamesHandle,
    b: &mut StreamObjectNamesHandle,
    n: u64,
    r: (Vec<String>, bool),
    s: (u64, bool),
    i: int,
)
    requires
        old(a).position <= old(a).objects@.len(),
        *old(a) == *old(b),
        call_ensures(StreamObjectNamesHandle::read_stream_object_names, (a, n), r),
        call_ensures(StreamObjectNamesHandle::skip_stream_object_names, (b, n), s),
    ensures
        ({
            let left = old(a).objects@.len() - old(a).position;
            &&& n <= left ==> r.0@.len() == n
            &&& n > left ==> r.0@.len() == left
            &&& r.1 <==> n >= left
            &&& 0 <= i < r.0@.len() ==> r.0@[i] == old(a).objects@[old(a).position + i]
            &&& final(a).position == old(a).position + r.0@.len()
            &&& s.0 == r.0@.len() && s.1 == r.1 && final(b).position == final(a).position
        }),
{
}

/// What is written into a value is added behind what it holds, as far as it may grow.
pub proof fn writes_add_to_the_value(h: &mut OutgoingValueHandle, bytes: &Vec<u8>, added: bool)
    requires
        call_ensures(OutgoingValueHandle::write_body, (h, bytes), added),
    ensures
        added ==> final(h).data@ == old(h).data@ + bytes@,
        !added ==> final(h).data@ == old(h).data@,
        old(h).data@.len() + bytes@.len() <= MAX_VALUE_BYTES <==> added,
        final(h).container_name == old(h).container_name && final(h).object_name == old(h).object_name,
{
}

} // verus!
