//! Feishu (Lark) clients: one message stream for each component, and the shapes of the messages
//! and requests in both directions. The calls over HTTP are in `feishu_api`.
use vstd::prelude::*;
use crate::json::{get_text, json_of, json_result, member, member_text, member_views, members_are_found_by_their_key, object_text, parse_json, quote, quoted, says_text, stands_under, strings_are_found_by_their_key, text_member, write_object, Json, JsonView};
use crate::number::{wrap_i32, wrapped_i32};
use crate::table::{config_get, data_of, lemma_put, lookup, outside_workload, put_at, setting, Config, Owned, Table, Tracker};
use crate::text::{opt_view, same};
use crate::world::{bound_config, first_of_package, one, WitInterface, WitWorld};

verus! {

pub const PLUGIN_ID: &'static str = "feishu";

/// An application of the service.
pub struct AppCredential {
    pub app_id: String,
    pub app_secret: String,
}

/// Settings that the guest passes to the client it makes.
pub struct FeishuConfig {
    pub app_id: String,
    pub app_secret: String,
}

/// Host-side state of a client resource.
pub struct FeishuClientHandle {
    pub client: AppCredential,
}

pub enum FeishuError {
    AuthFailed(String),
    SendFailed(String),
    Internal(String),
}

/// What a call of the service is for.
pub enum CallKind {
    Token,
    Send,
    Other,
}

pub struct ComponentData {
    pub interface_config: Config,
    pub workload: Option<String>,
    pub client: Option<AppCredential>,
    pub ws_cancel_token: Option<u64>,
}

pub struct Feishu {
    pub tracker: Tracker<ComponentData>,
}

/// What to do when a workload has been resolved.
pub enum ResolveAction {
    Nothing,
    /// A setting is missing: no message stream.
    SkipStream,
    /// Start the message stream for this application.
    StartStream(AppCredential),
}

/// A message event as it came from the service.
pub struct MessageEvent {
    pub message_id: String,
    pub chat_id: String,
    pub message_type: String,
    pub content: String,
    pub create_time: String,
    pub sender_open_id: String,
    pub sender_type: String,
}

/// A message as the guest sees it.
pub struct ImMessage {
    pub message_id: String,
    pub chat_id: String,
    pub sender_id: String,
    pub sender_type: String,
    pub message_type: String,
    pub text_content: Option<String>,
    pub create_time: String,
    pub raw_json: String,
}

/// A text message to send.
pub struct TextMessage {
    pub receive_id: String,
    pub receive_id_type: String,
    pub text: String,
}

/// The page of a list that a request asks for.
pub struct PageRequest {
    pub page_size: Option<i32>,
    pub page_token: Option<String>,
}

/// How a department is named in a request.
pub struct DepartmentQuery {
    pub user_id_type: String,
    pub department_id_type: String,
}

// ---- Messages ----

/// The text of a message, given what its content was read as: only text messages have one.
pub open spec fn text_content_of(
    message_type: Seq<char>,
    content: Result<JsonView, Seq<char>>,
) -> Option<Seq<char>> {
    if message_type == "text"@ {
        match content {
            Ok(j) => text_member(j, "text"@),
            Err(_) => None,
        }
    } else {
        None
    }
}

/// The summary of an event that the guest gets as JSON.
pub open spec fn event_json(e: MessageEvent) -> Seq<char> {
    object_text(
        seq![
            ("message_id"@, quoted(e.message_id@)),
            ("chat_id"@, quoted(e.chat_id@)),
            ("message_type"@, quoted(e.message_type@)),
            ("content"@, quoted(e.content@)),
            ("sender_open_id"@, quoted(e.sender_open_id@)),
        ],
    )
}

/// The text of a message, given what its content was read as.
pub fn text_content(message_type: &str, content: &Result<Json, String>) -> (r: Option<String>)
    ensures
        opt_view(r) == text_content_of(message_type@, json_result(*content)),
{
    if same(message_type, "text") {
        match content {
            Ok(j) => get_text(j, "text"),
            Err(_) => None,
        }
    } else {
        None
    }
}

fn event_text(e: &MessageEvent) -> (r: String)
    ensures
        r@ == event_json(*e),
{
    let mut m: Vec<(String, String)> = Vec::new();
    m.push(("message_id".to_owned(), quote(&e.message_id)));
    m.push(("chat_id".to_owned(), quote(&e.chat_id)));
    m.push(("message_type".to_owned(), quote(&e.message_type)));
    m.push(("content".to_owned(), quote(&e.content)));
    m.push(("sender_open_id".to_owned(), quote(&e.sender_open_id)));
    assert(member_views(m@) =~= seq![
        ("message_id"@, quoted(e.message_id@)),
        ("chat_id"@, quoted(e.chat_id@)),
        ("message_type"@, quoted(e.message_type@)),
        ("content"@, quoted(e.content@)),
        ("sender_open_id"@, quoted(e.sender_open_id@)),
    ]);
    write_object(&m)
}

/// The message that the guest is handed.
pub fn guest_message(e: &MessageEvent) -> (r: ImMessage)
    ensures
        r.message_id == e.message_id,
        r.chat_id == e.chat_id,
        r.sender_id == e.sender_open_id,
        r.sender_type == e.sender_type,
        r.message_type == e.message_type,
        opt_view(r.text_content) == text_content_of(e.message_type@, json_of(e.content@)),
        r.create_time == e.create_time,
        r.raw_json@ == event_json(*e),
{
    let content = parse_json(&e.content);
    ImMessage {
        message_id: e.message_id.clone(),
        chat_id: e.chat_id.clone(),
        sender_id: e.sender_open_id.clone(),
        sender_type: e.sender_type.clone(),
        message_type: e.message_type.clone(),
        text_content: text_content(&e.message_type, &content),
        create_time: e.create_time.clone(),
        raw_json: event_text(e),
    }
}

/// A text message to a chat.
pub fn send_text(chat_id: &str, content: &str) -> (r: TextMessage)
    ensures
        r.receive_id@ == chat_id@,
        r.receive_id_type@ == "chat_id"@,
        r.text@ == content@,
{
    send_text_to_user(chat_id, "chat_id", content)
}

/// A text message to a receiver of a given type.
pub fn send_text_to_user(receive_id: &str, receive_id_type: &str, content: &str) -> (r: TextMessage)
    ensures
        r.receive_id@ == receive_id@,
        r.receive_id_type@ == receive_id_type@,
        r.text@ == content@,
{
    TextMessage {
        receive_id: receive_id.to_owned(),
        receive_id_type: receive_id_type.to_owned(),
        text: content.to_owned(),
    }
}

/// The answer to a message, which names no receiver of its own.
pub fn reply_message(content: &str) -> (r: TextMessage)
    ensures
        r.receive_id@ == ""@,
        r.receive_id_type@ == ""@,
        r.text@ == content@,
{
    send_text_to_user("", "", content)
}

/// Departments are asked for by the open ids of users.
pub fn department_query(department_id_type: &str) -> (r: DepartmentQuery)
    ensures
        r.user_id_type@ == "open_id"@,
        r.department_id_type@ == department_id_type@,
{
    DepartmentQuery {
        user_id_type: "open_id".to_owned(),
        department_id_type: department_id_type.to_owned(),
    }
}

/// The error that the guest is told for a failed call.
pub fn call_error(kind: CallKind, message: String) -> (r: FeishuError)
    ensures
        r == match kind {
            CallKind::Token => FeishuError::AuthFailed(message),
            CallKind::Send => FeishuError::SendFailed(message),
            CallKind::Other => FeishuError::Internal(message),
        },
{
    match kind {
        CallKind::Token => FeishuError::AuthFailed(message),
        CallKind::Send => FeishuError::SendFailed(message),
        CallKind::Other => FeishuError::Internal(message),
    }
}

/// The integer under a key, where it fits 64 bits with a sign.
pub open spec fn integer_value(t: Seq<char>) -> Option<int> {
    match json_of(t) {
        Ok(JsonView::Unsigned(n)) => if n <= i64::MAX {
            Some(n as int)
        } else {
            None
        },
        Ok(JsonView::Negative(n)) => Some(n as int),
        _ => None,
    }
}

pub fn as_i64(t: &str) -> (r: Option<i64>)
    ensures
        match r {
            Some(n) => integer_value(t@) == Some(n as int),
            None => integer_value(t@) is None,
        },
{
    match parse_json(t) {
        Ok(Json::Unsigned(n)) => if n <= i64::MAX as u64 {
            Some(n as i64)
        } else {
            None
        },
        Ok(Json::Negative(n)) => Some(n),
        _ => None,
    }
}

/// The size of the page that parameters ask for, cut to 32 bits.
pub open spec fn page_size_of(params: JsonView) -> Option<int> {
    match member(params, "page_size"@) {
        Some(t) => match integer_value(t) {
            Some(n) => Some(wrapped_i32(n)),
            None => None,
        },
        None => None,
    }
}

pub open spec fn opt_int(o: Option<i32>) -> Option<int> {
    match o {
        Some(n) => Some(n as int),
        None => None,
    }
}

/// The page that a request asks for, given what its parameters were read as.
pub fn page_of(params: Result<Json, String>) -> (r: Result<PageRequest, FeishuError>)
    ensures
        match params {
            Ok(p) => r is Ok && opt_int(r->Ok_0.page_size) == page_size_of(p@) && opt_view(
                r->Ok_0.page_token,
            ) == text_member(p@, "page_token"@),
            Err(e) => r == Err::<PageRequest, FeishuError>(FeishuError::Internal(e)),
        },
{
    match params {
        Err(e) => Err(FeishuError::Internal(e)),
        Ok(p) => {
            let page_size = match member_text(&p, "page_size") {
                Some(t) => match as_i64(&t) {
                    Some(n) => Some(wrap_i32(n)),
                    None => None,
                },
                None => None,
            };
            Ok(PageRequest { page_size, page_token: get_text(&p, "page_token") })
        },
    }
}

/// The page that a request for tasks or task lists asks for.
pub fn page_request(request_json: &str) -> (r: Result<PageRequest, FeishuError>)
    ensures
        match json_of(request_json@) {
            Ok(p) => r is Ok && opt_int(r->Ok_0.page_size) == page_size_of(p) && opt_view(
                r->Ok_0.page_token,
            ) == text_member(p, "page_token"@),
            Err(e) => r is Err && r->Err_0 is Internal && r->Err_0->Internal_0@ == e,
        },
{
    let params = parse_json(request_json);
    page_of(params)
}

// ---- Plugin ----

pub open spec fn credential_view(c: Option<AppCredential>) -> Option<(Seq<char>, Seq<char>)> {
    match c {
        Some(c) => Some((c.app_id@, c.app_secret@)),
        None => None,
    }
}

/// The application that a configuration names.
pub open spec fn configured_app(m: Map<Seq<char>, String>) -> Option<(Seq<char>, Seq<char>)> {
    match (setting(m, "app-id"@), setting(m, "app-secret"@)) {
        (Some(i), Some(s)) => Some((i, s)),
        _ => None,
    }
}

/// How the component changes when its workload is resolved.
pub open spec fn after_resolve(
    before: ComponentData,
    after: ComponentData,
    workload: Seq<char>,
    token: u64,
    action: ResolveAction,
) -> bool {
    &&& after.interface_config == before.interface_config
    &&& opt_view(after.workload) == Some(workload)
    &&& if before.client is Some {
        after.client == before.client && after.ws_cancel_token == before.ws_cancel_token && action
            is Nothing
    } else {
        match configured_app(before.interface_config@) {
            None => after.client is None && after.ws_cancel_token == before.ws_cancel_token
                && action is SkipStream,
            Some(c) => credential_view(after.client) == Some(c) && after.ws_cancel_token == Some(
                token,
            ) && match action {
                ResolveAction::StartStream(a) => (a.app_id@, a.app_secret@) == c,
                _ => false,
            },
        }
    }
}

/// The tokens that stop the message streams of components.
pub open spec fn stream_tokens(d: Seq<ComponentData>) -> Seq<u64>
    decreases d.len(),
{
    if d.len() == 0 {
        Seq::<u64>::empty()
    } else {
        match d.last().ws_cancel_token {
            Some(t) => stream_tokens(d.drop_last()).push(t),
            None => stream_tokens(d.drop_last()),
        }
    }
}

/// The app that a component gets a client for: that of the passed configuration, or else the one
/// whose client runs.
pub open spec fn app_for(o: Option<Owned<ComponentData>>, config: Option<FeishuConfig>) -> Result<
    (Seq<char>, Seq<char>),
    Seq<char>,
> {
    match o {
        None => Err("component not tracked"@),
        Some(o) => match config {
            Some(c) => Ok((c.app_id@, c.app_secret@)),
            None => match credential_view(o.data.client) {
                Some(c) => Ok(c),
                None => Err(
                    "feishu client not started — WebSocket should be running from on_workload_resolved"@,
                ),
            },
        },
    }
}

impl Feishu {
    pub fn new() -> (r: Feishu)
        ensures
            r.tracker@ == Map::<Seq<char>, Owned<ComponentData>>::empty(),
    {
        Feishu { tracker: Table::new() }
    }

    pub fn id(&self) -> (r: &'static str)
        ensures
            r@ == "feishu"@,
    {
        PLUGIN_ID
    }

    pub fn world(&self) -> (r: WitWorld)
        ensures
            r.imports@.len() == 1,
            r.imports@[0].names("custom"@, "feishu"@, seq!["handler"@], "0.1.0"@),
            r.exports@.len() == 1,
            r.exports@[0].names("custom"@, "feishu"@, seq!["sender"@], "0.1.0"@),
    {
        let mut imports: Vec<WitInterface> = Vec::new();
        imports.push(WitInterface::of("custom", "feishu", one("handler"), "0.1.0"));
        let mut exports: Vec<WitInterface> = Vec::new();
        exports.push(WitInterface::of("custom", "feishu", one("sender"), "0.1.0"));
        WitWorld { imports, exports }
    }

    /// Begins to track a component that brings a `custom:feishu` interface.
    pub fn on_workload_item_bind(
        &mut self,
        component_id: &str,
        workload_id: &str,
        is_component: bool,
        interfaces: &Vec<WitInterface>,
    ) -> (bound: bool)
        ensures
            bound == (is_component && first_of_package(interfaces@, "custom"@, "feishu"@) is Some),
            !bound ==> final(self).tracker@ == old(self).tracker@,
            bound ==> put_at(old(self).tracker@, final(self).tracker@, component_id@) && ({
                let o = final(self).tracker@[component_id@];
                &&& o.workload_id@ == workload_id@
                &&& o.data.interface_config@ == first_of_package(
                    interfaces@,
                    "custom"@,
                    "feishu"@,
                )->0.config@
                &&& o.data.workload is None
                &&& o.data.client is None
                &&& o.data.ws_cancel_token is None
            }),
    {
        if let Some(interface_config) = bound_config(interfaces, "custom", "feishu") {
            if is_component {
                let data = ComponentData {
                    interface_config,
                    workload: None,
                    client: None,
                    ws_cancel_token: None,
                };
                let owned = Owned { workload_id: workload_id.to_owned(), data };
                proof {
                    lemma_put(self.tracker@, component_id@, owned);
                }
                self.tracker.insert(component_id.to_owned(), owned);
                return true;
            }
        }
        false
    }

    /// Notes the workload of a component and starts its message stream once; `token` is the
    /// cancellation token for that stream.
    pub fn on_workload_resolved(&mut self, workload: &str, component_id: &str, token: u64) -> (r:
        ResolveAction)
        ensures
            match lookup(old(self).tracker@, component_id@) {
                None => r is Nothing && final(self).tracker@ == old(self).tracker@,
                Some(o) => put_at(old(self).tracker@, final(self).tracker@, component_id@)
                    && final(self).tracker@[component_id@].workload_id == o.workload_id
                    && after_resolve(
                    o.data,
                    final(self).tracker@[component_id@].data,
                    workload@,
                    token,
                    r,
                ),
            },
    {
        let ghost before = self.tracker@;
        match self.tracker.remove(component_id) {
            None => {
                assert(before.remove(component_id@) =~= before);
                ResolveAction::Nothing
            },
            Some(o) => {
                let mut data = o.data;
                data.workload = Some(workload.to_owned());
                let mut action = ResolveAction::Nothing;
                if data.client.is_none() {
                    action = ResolveAction::SkipStream;
                    if let Some(app_id) = config_get(&data.interface_config, "app-id") {
                        if let Some(app_secret) = config_get(&data.interface_config, "app-secret") {
                            action = ResolveAction::StartStream(
                                AppCredential {
                                    app_id: app_id.clone(),
                                    app_secret: app_secret.clone(),
                                },
                            );
                            data.client = Some(AppCredential { app_id, app_secret });
                            data.ws_cancel_token = Some(token);
                        }
                    }
                }
                let owned = Owned { workload_id: o.workload_id, data };
                proof {
                    lemma_put(before, component_id@, owned);
                }
                self.tracker.insert(component_id.to_owned(), owned);
                action
            },
        }
    }

    /// Forgets the components of a workload; returns the tokens of the streams to stop.
    pub fn on_workload_unbind(&mut self, workload_id: &str) -> (r: Vec<u64>)
        ensures
            final(self).tracker@ == outside_workload(old(self).tracker@, workload_id@),
            r@ == stream_tokens(data_of(old(self).tracker.pairs(), workload_id@)),
    {
        let gone = self.tracker.remove_workload(workload_id);
        let mut tokens: Vec<u64> = Vec::new();
        let mut i: usize = 0;
        while i < gone.len()
            invariant
                i <= gone@.len(),
                tokens@ == stream_tokens(gone@.take(i as int)),
            decreases gone@.len() - i,
        {
            assert(gone@.take(i + 1).drop_last() == gone@.take(i as int));
            if let Some(t) = gone[i].ws_cancel_token {
                tokens.push(t);
            }
            i = i + 1;
        }
        assert(gone@.take(gone@.len() as int) == gone@);
        tokens
    }

    /// A client resource for a component: for the app of the passed configuration, or else for the
    /// one whose client runs for the component.
    pub fn new_client(&self, component_id: &str, config: Option<FeishuConfig>) -> (r: Result<
        FeishuClientHandle,
        String,
    >)
        ensures
            match r {
                Ok(h) => app_for(lookup(self.tracker@, component_id@), config) == Ok::<
                    (Seq<char>, Seq<char>),
                    Seq<char>,
                >((h.client.app_id@, h.client.app_secret@)),
                Err(e) => app_for(lookup(self.tracker@, component_id@), config) == Err::<
                    (Seq<char>, Seq<char>),
                    Seq<char>,
                >(e@),
            },
    {
        let running = match self.tracker.get(component_id) {
            None => {
                return Err("component not tracked".to_owned());
            },
            Some(o) => &o.data.client,
        };
        if let Some(c) = config {
            return Ok(
                FeishuClientHandle {
                    client: AppCredential { app_id: c.app_id, app_secret: c.app_secret },
                },
            );
        }
        match running {
            None => Err(
                "feishu client not started — WebSocket should be running from on_workload_resolved".to_owned(),
            ),
            Some(c) => Ok(
                FeishuClientHandle {
                    client: AppCredential {
                        app_id: c.app_id.clone(),
                        app_secret: c.app_secret.clone(),
                    },
                },
            ),
        }
    }
}

impl Default for Feishu {
    fn default() -> (r: Feishu)
        ensures
            r.tracker@ == Map::<Seq<char>, Owned<ComponentData>>::empty(),
    {
        Feishu::new()
    }
}

// ---- Laws ----

/// A message of another type than text has no text, whatever it holds.
pub proof fn only_text_messages_have_text(
    message_type: Seq<char>,
    content: Result<JsonView, Seq<char>>,
)
    requires
        message_type != "text"@,
    ensures
        text_content_of(message_type, content) is None,
{
}

/// Resolving a workload again starts no second stream.
pub proof fn stream_starts_once(
    first: ComponentData,
    second: ComponentData,
    third: ComponentData,
    w1: Seq<char>,
    t1: u64,
    a1: ResolveAction,
    w2: Seq<char>,
    t2: u64,
    a2: ResolveAction,
)
    requires
        after_resolve(first, second, w1, t1, a1),
        after_resolve(second, third, w2, t2, a2),
        a1 is StartStream,
    ensures
        a2 is Nothing,
        third.client == second.client,
        third.ws_cancel_token == Some(t1),
{
}

/// The configuration that the guest passes has priority over the client that runs.
pub proof fn constructor_config_has_priority(o: Owned<ComponentData>, config: FeishuConfig)
    ensures
        app_for(Some(o), Some(config)) == Ok::<(Seq<char>, Seq<char>), Seq<char>>(
            (config.app_id@, config.app_secret@),
        ),
{
}

/// The text of a text message is the string under `text` in its content, and none where there is no
/// such string or the content cannot be read.
pub proof fn text_messages_have_their_text(content: JsonView, error: Seq<char>)
    ensures
        forall|s: Seq<char>| #[trigger]
            says_text(content, "text"@, s) <==> text_content_of("text"@, Ok(content)) == Some(s),
        text_content_of("text"@, Err(error)) is None,
{
    strings_are_found_by_their_key(content, "text"@);
}

/// The raw event is an object with the ids, the type, the content and the sender under those names.
pub proof fn raw_events_are_objects(e: MessageEvent) -> (m: Seq<(Seq<char>, Seq<char>)>)
    ensures
        event_json(e) == object_text(m),
        m.len() == 5,
        m[0] == ("message_id"@, quoted(e.message_id@)),
        m[1] == ("chat_id"@, quoted(e.chat_id@)),
        m[2] == ("message_type"@, quoted(e.message_type@)),
        m[3] == ("content"@, quoted(e.content@)),
        m[4] == ("sender_open_id"@, quoted(e.sender_open_id@)),
{
    seq![
        ("message_id"@, quoted(e.message_id@)),
        ("chat_id"@, quoted(e.chat_id@)),
        ("message_type"@, quoted(e.message_type@)),
        ("content"@, quoted(e.content@)),
        ("sender_open_id"@, quoted(e.sender_open_id@)),
    ]
}

/// A page has the size that is asked for, as 32 bits hold it, and none where no whole number is
/// asked for.
pub proof fn pages_have_the_size_asked_for(j: JsonView, t: Seq<char>, n: u64, k: i64)
    requires
        stands_under(j, "page_size"@, t),
    ensures
        json_of(t) == Ok::<JsonView, Seq<char>>(JsonView::Unsigned(n)) && n <= 0x7fff_ffff
            ==> page_size_of(j) == Some(n as int),
        json_of(t) == Ok::<JsonView, Seq<char>>(JsonView::Negative(k)) && -0x8000_0000 <= k < 0
            ==> page_size_of(j) == Some(k as int),
        json_of(t) == Ok::<JsonView, Seq<char>>(JsonView::Unsigned(n)) && n > 0x7fff_ffff_ffff_ffff
            ==> page_size_of(j) is None,
        json_of(t) is Err ==> page_size_of(j) is None,
        json_of(t) is Ok && !(json_of(t)->Ok_0 is Unsigned) && !(json_of(t)->Ok_0 is Negative)
            ==> page_size_of(j) is None,
{
    members_are_found_by_their_key(j, "page_size"@);
}

/// A request without a page size asks for none.
pub proof fn pages_need_no_size(j: JsonView)
    requires
        member(j, "page_size"@) is None,
    ensures
        page_size_of(j) is None,
{
}

/// The configured app has an id and a secret, each under its own name, and is none without either.
pub proof fn apps_have_an_id_and_a_secret(m: Map<Seq<char>, String>)
    ensures
        match configured_app(m) {
            Some(c) => m.contains_key("app-id"@) && m.contains_key("app-secret"@) && c.0
                == m["app-id"@]@ && c.1 == m["app-secret"@]@,
            None => !m.contains_key("app-id"@) || !m.contains_key("app-secret"@),
        },
{
}

/// A resolved component streams with its configured app, once; without an app it does not, and with
/// a client that runs nothing changes.
pub proof fn streams_take_the_configured_app(
    before: ComponentData,
    after: ComponentData,
    workload: Seq<char>,
    token: u64,
    action: ResolveAction,
)
    requires
        after_resolve(before, after, workload, token, action),
    ensures
        after.workload is Some && after.workload->0@ == workload,
        after.interface_config == before.interface_config,
        before.client is Some ==> action is Nothing && after.client == before.client
            && after.ws_cancel_token == before.ws_cancel_token,
        before.client is None && (!before.interface_config@.contains_key("app-id"@)
            || !before.interface_config@.contains_key("app-secret"@)) ==> action is SkipStream
            && after.client is None && after.ws_cancel_token == before.ws_cancel_token,
        before.client is None && before.interface_config@.contains_key("app-id"@)
            && before.interface_config@.contains_key("app-secret"@) ==> {
            let id = before.interface_config@["app-id"@]@;
            let secret = before.interface_config@["app-secret"@]@;
            &&& action is StartStream
            &&& action->StartStream_0.app_id@ == id && action->StartStream_0.app_secret@ == secret
            &&& after.client is Some
            &&& after.client->0.app_id@ == id && after.client->0.app_secret@ == secret
            &&& after.ws_cancel_token == Some(token)
        },
{
}

/// A client without settings of the guest's is the one that streams; there is none before streaming
/// starts, nor for a component that is not tracked.
pub proof fn clients_are_those_that_stream(o: Option<Owned<ComponentData>>)
    ensures
        match app_for(o, None) {
            Ok(c) => o is Some && o->0.data.client is Some && c.0 == o->0.data.client->0.app_id@ && c.1
                == o->0.data.client->0.app_secret@,
            Err(e) => if o is None {
                e == "component not tracked"@
            } else {
                o->0.data.client is None && e
                    == "feishu client not started — WebSocket should be running from on_workload_resolved"@
            },
        },
{
}

/// Unbinding gives back the tokens of the streams that run, in order.
pub proof fn every_stream_is_cancelled(d: Seq<ComponentData>, more: ComponentData)
    ensures
        more.ws_cancel_token is Some ==> stream_tokens(d.push(more)) == stream_tokens(d).push(
            more.ws_cancel_token->0,
        ),
        more.ws_cancel_token is None ==> stream_tokens(d.push(more)) == stream_tokens(d),
        stream_tokens(Seq::<ComponentData>::empty()).len() == 0,
{
    assert(d.push(more).drop_last() =~= d);
}

/// The plugin goes by its own name, and takes and gives the interfaces of its own package.
pub proof fn the_plugin_and_its_world(p: Feishu, id: &'static str, w: WitWorld)
    requires
        call_ensures(Feishu::id, (&p,), id),
        call_ensures(Feishu::world, (&p,), w),
    ensures
        id@ == "feishu"@,
        w.imports@.len() == 1,
        w.imports@[0].names("custom"@, "feishu"@, seq!["handler"@], "0.1.0"@),
        w.exports@.len() == 1,
        w.exports@[0].names("custom"@, "feishu"@, seq!["sender"@], "0.1.0"@),
{
}

/// A message for the guest says what came: its ids, its sender, its type and time, and its text
/// where it is one.
pub proof fn messages_say_what_came(e: MessageEvent, r: ImMessage)
    requires
        call_ensures(guest_message, (&e,), r),
    ensures
        r.message_id@ == e.message_id@,
        r.chat_id@ == e.chat_id@,
        r.sender_id@ == e.sender_open_id@,
        r.message_type@ == e.message_type@,
        r.sender_type == e.sender_type,
        r.create_time == e.create_time,
        e.message_type@ != "text"@ ==> r.text_content is None,
        e.message_type@ == "text"@ && json_of(e.content@) is Ok ==> opt_view(r.text_content)
            == text_member(json_of(e.content@)->Ok_0, "text"@),
        e.message_type@ == "text"@ && json_of(e.content@) is Err ==> r.text_content is None,
{
}

/// A text goes to the chat or the user it is for, as it is; a reply names nobody.
pub proof fn texts_go_to_their_receiver(
    to: &str,
    kind: &str,
    content: &str,
    a: TextMessage,
    b: TextMessage,
    c: TextMessage,
)
    requires
        call_ensures(send_text, (to, content), a),
        call_ensures(send_text_to_user, (to, kind, content), b),
        call_ensures(reply_message, (content,), c),
    ensures
        a.receive_id@ == to@ && a.receive_id_type@ == "chat_id"@ && a.text@ == content@,
        b.receive_id@ == to@ && b.receive_id_type@ == kind@ && b.text@ == content@,
        c.text@ == content@,
{
}

/// What fails is told by what was called for: a token, a message, or something else.
pub proof fn failures_by_kind(m: String, a: FeishuError, b: FeishuError, c: FeishuError)
    requires
        call_ensures(call_error, (CallKind::Token, m), a),
        call_ensures(call_error, (CallKind::Send, m), b),
        call_ensures(call_error, (CallKind::Other, m), c),
    ensures
        a == FeishuError::AuthFailed(m),
        b == FeishuError::SendFailed(m),
        c == FeishuError::Internal(m),
{
}

/// A page is asked for by its size and by the string under `page_token`; a request that cannot be
/// read is an error.
pub proof fn pages_are_asked_for_by_name(request: &str, r: Result<PageRequest, FeishuError>, s: Seq<char>)
    requires
        call_ensures(page_request, (request,), r),
    ensures
        json_of(request@) is Ok <==> r is Ok,
        r is Ok ==> (says_text(json_of(request@)->Ok_0, "page_token"@, s) <==> opt_view(
            r->Ok_0.page_token,
        ) == Some(s)),
        r is Ok ==> opt_int(r->Ok_0.page_size) == page_size_of(json_of(request@)->Ok_0),
        r is Err ==> r->Err_0 is Internal,
{
    if json_of(request@) is Ok {
        strings_are_found_by_their_key(json_of(request@)->Ok_0, "page_token"@);
    }
}

/// A component that has an interface of the package is tracked for its workload, as one that has just
/// been bound; any other is not, and nothing else changes.
pub proof fn components_are_bound_for_their_workload(
    p: &mut Feishu,
    id: &str,
    workload: &str,
    is_component: bool,
    interfaces: &Vec<WitInterface>,
    bound: bool,
    other: Seq<char>,
)
    requires
        call_ensures(
            Feishu::on_workload_item_bind,
            (p, id, workload, is_component, interfaces),
            bound,
        ),
        other != id@,
    ensures
        bound <==> is_component && first_of_package(interfaces@, "custom"@, "feishu"@) is Some,
        !bound ==> final(p).tracker@ == old(p).tracker@,
        lookup(final(p).tracker@, other) == lookup(old(p).tracker@, other),
        bound ==> {
            let o = final(p).tracker@[id@];
            &&& final(p).tracker@.contains_key(id@)
            &&& o.workload_id@ == workload@
            &&& o.data.interface_config@ == first_of_package(interfaces@, "custom"@, "feishu"@)->0.config@
            &&& o.data.workload is None && o.data.client is None && o.data.ws_cancel_token is None
        },
{
    if bound {
        crate::table::putting_leaves_the_others(old(p).tracker@, final(p).tracker@, id@, other);
    }
}

} // verus!
