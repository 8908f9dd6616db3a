//! DingTalk stream clients: chatbot messages from the stream to the guest, and replies back.
use vstd::prelude::*;
use crate::json::{object_text, quote, quoted, write_object};
use crate::table::{lemma_put, lookup, outside_workload, put_at, resolve_field, resolved, Config, Owned, Table, Tracker};
use crate::text::{opt_view, text_or_empty, views};
use crate::world::{bound_config, first_of_package, one, two, WitInterface, WitWorld};

verus! {

pub const PLUGIN_ID: &'static str = "dingtalk-stream";

/// Host-side state of a client resource.
pub struct DingtalkClientHandle {
    pub client_id: String,
    pub client_secret: String,
    pub cancel_token: u64,
}

pub struct DingtalkConfig {
    pub client_id: String,
    pub client_secret: String,
}

pub enum DingtalkError {
    AuthFailed(String),
    SendFailed(String),
    Internal(String),
}

/// How a call of the service failed.
pub enum ServiceError {
    Auth(String),
    Other(String),
}

pub struct ComponentData {
    pub interface_config: Config,
    pub workload: Option<String>,
}

pub struct DingTalk {
    pub tracker: Tracker<ComponentData>,
}

/// What the service says of a chatbot message.
pub struct Incoming {
    pub conversation_type: Option<String>,
    pub conversation_id: Option<String>,
    pub sender_id: Option<String>,
    pub sender_nick: Option<String>,
    pub message_id: Option<String>,
    pub is_admin: Option<bool>,
    pub is_in_at_list: Option<bool>,
}

pub struct IncomingView {
    pub conversation_type: Option<Seq<char>>,
    pub conversation_id: Option<Seq<char>>,
    pub sender_id: Option<Seq<char>>,
    pub sender_nick: Option<Seq<char>>,
    pub message_id: Option<Seq<char>>,
    pub is_admin: Option<bool>,
    pub is_in_at_list: Option<bool>,
}

impl Incoming {
    pub open spec fn view(&self) -> IncomingView {
        IncomingView {
            conversation_type: opt_view(self.conversation_type),
            conversation_id: opt_view(self.conversation_id),
            sender_id: opt_view(self.sender_id),
            sender_nick: opt_view(self.sender_nick),
            message_id: opt_view(self.message_id),
            is_admin: self.is_admin,
            is_in_at_list: self.is_in_at_list,
        }
    }
}

spec fn incoming_view(i: Option<(Incoming, Option<Vec<String>>)>) -> Option<IncomingView> {
    match i {
        Some((m, _)) => Some(m@),
        None => None,
    }
}

pub open spec fn texts_view(t: Option<Vec<String>>) -> Option<Seq<Seq<char>>> {
    match t {
        Some(t) => Some(views(t@)),
        None => None,
    }
}

/// A chatbot message as the guest sees it.
pub struct ChatbotMessage {
    pub conversation_type: String,
    pub conversation_id: String,
    pub sender_id: String,
    pub sender_nick: String,
    pub message_id: String,
    pub text_content: Option<String>,
    pub is_admin: bool,
    pub is_at: bool,
    pub raw_json: String,
}

/// The message that a reply refers to.
pub struct SyntheticMessage {
    pub conversation_id: Option<String>,
    pub conversation_type: Option<String>,
    pub sender_id: Option<String>,
    pub sender_staff_id: Option<String>,
    pub sender_nick: Option<String>,
    pub message_id: Option<String>,
}

/// What the stream is answered, and the message to hand to the guest.
pub struct CallbackReply {
    pub status: u16,
    pub body: String,
    pub message: Option<ChatbotMessage>,
}

/// The chatbot message that `dingtalk_stream` reads out of the data of a callback; none where the
/// data is no JSON or no chatbot message.
pub uninterp spec fn chatbot_message_of(data: Seq<char>) -> Option<IncomingView>;

/// The texts that `dingtalk_stream` extracts from the chatbot message in the data of a callback.
pub uninterp spec fn chatbot_texts_of(data: Seq<char>) -> Option<Seq<Seq<char>>>;

/// `dingtalk_stream::ChatbotMessage::from_value` on the parsed data, and
/// `ChatbotReplier::extract_text` on the message; known by the names `chatbot_message_of` and
/// `chatbot_texts_of` only.
#[verifier::external_body]
fn read_chatbot_message(data: &str) -> (r: Option<(Incoming, Option<Vec<String>>)>)
    ensures
        incoming_view(r) == chatbot_message_of(data@),
        match r {
            Some((_, texts)) => texts_view(texts) == chatbot_texts_of(data@),
            None => true,
        },
{
    let value: serde_json::Value = serde_json::from_str(data).ok()?;
    let m = dingtalk_stream::ChatbotMessage::from_value(&value).ok()?;
    let texts = dingtalk_stream::ChatbotReplier::extract_text(&m);
    Some((Incoming {
        conversation_type: m.conversation_type,
        conversation_id: m.conversation_id,
        sender_id: m.sender_id,
        sender_nick: m.sender_nick,
        message_id: m.message_id,
        is_admin: m.is_admin,
        is_in_at_list: m.is_in_at_list,
    }, texts))
}

pub open spec fn text_or(o: Option<Seq<char>>) -> Seq<char> {
    match o {
        Some(t) => t,
        None => Seq::<char>::empty(),
    }
}

/// `m` is what the guest is handed for `i`: missing texts are empty, missing flags false, and the
/// text is the first one extracted.
pub open spec fn message_for(
    m: ChatbotMessage,
    i: IncomingView,
    texts: Option<Seq<Seq<char>>>,
    raw: Seq<char>,
) -> bool {
    &&& m.conversation_type@ == text_or(i.conversation_type)
    &&& m.conversation_id@ == text_or(i.conversation_id)
    &&& m.sender_id@ == text_or(i.sender_id)
    &&& m.sender_nick@ == text_or(i.sender_nick)
    &&& m.message_id@ == text_or(i.message_id)
    &&& opt_view(m.text_content) == match texts {
        Some(t) => if t.len() > 0 {
            Some(t[0])
        } else {
            None
        },
        None => None,
    }
    &&& m.is_admin == (i.is_admin == Some(true))
    &&& m.is_at == (i.is_in_at_list == Some(true))
    &&& m.raw_json@ == raw
}

/// The message that the guest is handed.
pub fn guest_message(i: &Incoming, texts: &Option<Vec<String>>, raw: &str) -> (r: ChatbotMessage)
    ensures
        message_for(r, i@, texts_view(*texts), raw@),
{
    let text_content = match texts {
        Some(t) => if t.len() > 0 {
            assert(views(t@)[0] == t@[0]@);
            Some(t[0].clone())
        } else {
            None
        },
        None => None,
    };
    ChatbotMessage {
        conversation_type: text_or_empty(&i.conversation_type),
        conversation_id: text_or_empty(&i.conversation_id),
        sender_id: text_or_empty(&i.sender_id),
        sender_nick: text_or_empty(&i.sender_nick),
        message_id: text_or_empty(&i.message_id),
        text_content,
        is_admin: match i.is_admin {
            Some(b) => b,
            None => false,
        },
        is_at: match i.is_in_at_list {
            Some(b) => b,
            None => false,
        },
        raw_json: raw.to_owned(),
    }
}

/// Takes callbacks of the stream for one component.
pub struct GuestCallbackBridge {
    pub component_id: String,
}

impl GuestCallbackBridge {
    /// Every callback is answered with 200 "OK"; the guest is handed the message where the data
    /// holds one.
    pub fn process(&self, data: &str) -> (r: CallbackReply)
        ensures
            r.status == 200,
            r.body@ == "OK"@,
            match r.message {
                Some(m) => match chatbot_message_of(data@) {
                    Some(i) => message_for(m, i, chatbot_texts_of(data@), data@),
                    None => false,
                },
                None => chatbot_message_of(data@) is None,
            },
    {
        let message = match read_chatbot_message(data) {
            Some((i, texts)) => Some(guest_message(&i, &texts, data)),
            None => None,
        };
        CallbackReply { status: 200, body: "OK".to_owned(), message }
    }
}

/// The message that a reply to a user in a conversation refers to.
pub fn build_synthetic_message(conversation_id: &str, sender_id: &str) -> (r: SyntheticMessage)
    ensures
        opt_view(r.conversation_id) == Some(conversation_id@),
        opt_view(r.conversation_type) == Some("1"@),
        opt_view(r.sender_id) == Some(sender_id@),
        opt_view(r.sender_staff_id) == Some(sender_id@),
        opt_view(r.sender_nick) == Some(""@),
        opt_view(r.message_id) == Some(""@),
{
    SyntheticMessage {
        conversation_id: Some(conversation_id.to_owned()),
        conversation_type: Some("1".to_owned()),
        sender_id: Some(sender_id.to_owned()),
        sender_staff_id: Some(sender_id.to_owned()),
        sender_nick: Some("".to_owned()),
        message_id: Some("".to_owned()),
    }
}

/// The parameter of a one-to-one text message: `{"content":..}`.
pub fn oto_text_param(content: &str) -> (r: String)
    ensures
        r@ == object_text(seq![("content"@, quoted(content@))]),
{
    let mut members: Vec<(String, String)> = Vec::new();
    members.push(("content".to_owned(), quote(content)));
    assert(crate::json::member_views(members@) =~= seq![("content"@, quoted(content@))]);
    write_object(&members)
}

/// What the guest is told of a send.
pub fn send_outcome(sent: Result<(), ServiceError>) -> (r: Result<(), DingtalkError>)
    ensures
        match sent {
            Ok(_) => r is Ok,
            Err(ServiceError::Auth(e)) => r == Err::<(), DingtalkError>(
                DingtalkError::AuthFailed(e),
            ),
            Err(ServiceError::Other(e)) => r == Err::<(), DingtalkError>(
                DingtalkError::SendFailed(e),
            ),
        },
{
    match sent {
        Ok(_) => Ok(()),
        Err(ServiceError::Auth(e)) => Err(DingtalkError::AuthFailed(e)),
        Err(ServiceError::Other(e)) => Err(DingtalkError::SendFailed(e)),
    }
}

/// What the guest is told of a request for an access token.
pub fn token_outcome(got: Result<String, ServiceError>) -> (r: Result<String, DingtalkError>)
    ensures
        match got {
            Ok(t) => r == Ok::<String, DingtalkError>(t),
            Err(ServiceError::Auth(e)) => r == Err::<String, DingtalkError>(
                DingtalkError::AuthFailed(e),
            ),
            Err(ServiceError::Other(e)) => r == Err::<String, DingtalkError>(
                DingtalkError::Internal(e),
            ),
        },
{
    match got {
        Ok(t) => Ok(t),
        Err(ServiceError::Auth(e)) => Err(DingtalkError::AuthFailed(e)),
        Err(ServiceError::Other(e)) => Err(DingtalkError::Internal(e)),
    }
}

/// The client id and secret for a new client, or the message of the failure; the first thing that
/// is missing decides.
pub open spec fn client_credentials(
    o: Option<Owned<ComponentData>>,
    config: Option<DingtalkConfig>,
) -> Result<(Seq<char>, Seq<char>), Seq<char>> {
    match o {
        None => Err("component not tracked"@),
        Some(c) => {
            let id = resolved(
                match config {
                    Some(d) => Some(d.client_id@),
                    None => None,
                },
                c.data.interface_config@,
                "client-id"@,
            );
            let secret = resolved(
                match config {
                    Some(d) => Some(d.client_secret@),
                    None => None,
                },
                c.data.interface_config@,
                "client-secret"@,
            );
            match id {
                None => Err("missing client-id: provide via constructor or interface config"@),
                Some(i) => match secret {
                    None => Err(
                        "missing client-secret: provide via constructor or interface config"@,
                    ),
                    Some(s) => if c.data.workload is None {
                        Err("workload not resolved yet"@)
                    } else {
                        Ok((i, s))
                    },
                },
            }
        },
    }
}

impl DingTalk {
    pub fn new() -> (r: DingTalk)
        ensures
            r.tracker@ == Map::<Seq<char>, Owned<ComponentData>>::empty(),
    {
        DingTalk { tracker: Table::new() }
    }

    pub fn id(&self) -> (r: &'static str)
        ensures
            r@ == "dingtalk-stream"@,
    {
        PLUGIN_ID
    }

    pub fn world(&self) -> (r: WitWorld)
        ensures
            r.imports@.len() == 1,
            r.imports@[0].names("custom"@, "dingtalk-stream"@, seq!["sender"@, "types"@], "0.1.0"@),
            r.exports@.len() == 1,
            r.exports@[0].names("custom"@, "dingtalk-stream"@, seq!["handler"@], "0.1.0"@),
    {
        let mut imports: Vec<WitInterface> = Vec::new();
        imports.push(WitInterface::of("custom", "dingtalk-stream", two("sender", "types"), "0.1.0"));
        let mut exports: Vec<WitInterface> = Vec::new();
        exports.push(WitInterface::of("custom", "dingtalk-stream", one("handler"), "0.1.0"));
        WitWorld { imports, exports }
    }

    /// Begins to track a component that brings a `custom:dingtalk-stream` interface.
    pub fn on_workload_item_bind(
        &mut self,
        component_id: &str,
        workload_id: &str,
        is_component: bool,
        interfaces: &Vec<WitInterface>,
    ) -> (bound: bool)
        ensures
            bound == (is_component && first_of_package(interfaces@, "custom"@, "dingtalk-stream"@)
                is Some),
            !bound ==> final(self).tracker@ == old(self).tracker@,
            bound ==> put_at(old(self).tracker@, final(self).tracker@, component_id@) && ({
                let o = final(self).tracker@[component_id@];
                &&& o.workload_id@ == workload_id@
                &&& o.data.interface_config@ == first_of_package(
                    interfaces@,
                    "custom"@,
                    "dingtalk-stream"@,
                )->0.config@
                &&& o.data.workload is None
            }),
    {
        if let Some(interface_config) = bound_config(interfaces, "custom", "dingtalk-stream") {
            if is_component {
                let owned = Owned {
                    workload_id: workload_id.to_owned(),
                    data: ComponentData { interface_config, workload: None },
                };
                proof {
                    lemma_put(self.tracker@, component_id@, owned);
                }
                self.tracker.insert(component_id.to_owned(), owned);
                return true;
            }
        }
        false
    }

    /// Notes the workload of a component.
    pub fn on_workload_resolved(&mut self, workload: &str, component_id: &str)
        ensures
            match lookup(old(self).tracker@, component_id@) {
                None => final(self).tracker@ == old(self).tracker@,
                Some(o) => put_at(old(self).tracker@, final(self).tracker@, component_id@) && ({
                    let n = final(self).tracker@[component_id@];
                    &&& n.workload_id == o.workload_id
                    &&& n.data.interface_config == o.data.interface_config
                    &&& opt_view(n.data.workload) == Some(workload@)
                }),
            },
    {
        let ghost before = self.tracker@;
        match self.tracker.remove(component_id) {
            None => {
                assert(before.remove(component_id@) =~= before);
            },
            Some(o) => {
                let owned = Owned {
                    workload_id: o.workload_id,
                    data: ComponentData {
                        interface_config: o.data.interface_config,
                        workload: Some(workload.to_owned()),
                    },
                };
                proof {
                    lemma_put(before, component_id@, owned);
                }
                self.tracker.insert(component_id.to_owned(), owned);
            },
        }
    }

    /// Forgets the components of a workload. The clients of their guests run on until they are
    /// stopped or dropped.
    pub fn on_workload_unbind(&mut self, workload_id: &str)
        ensures
            final(self).tracker@ == outside_workload(old(self).tracker@, workload_id@),
    {
        let _ = self.tracker.remove_workload(workload_id);
    }

    /// A client for a component. What the guest passes goes before the static configuration;
    /// `cancel_token` stops the stream of the client.
    pub fn new_client(
        &self,
        component_id: &str,
        config: Option<DingtalkConfig>,
        cancel_token: u64,
    ) -> (r: Result<DingtalkClientHandle, String>)
        ensures
            match r {
                Ok(h) => client_credentials(lookup(self.tracker@, component_id@), config) == Ok::<
                    (Seq<char>, Seq<char>),
                    Seq<char>,
                >((h.client_id@, h.client_secret@)) && h.cancel_token == cancel_token,
                Err(e) => client_credentials(lookup(self.tracker@, component_id@), config) == Err::<
                    (Seq<char>, Seq<char>),
                    Seq<char>,
                >(e@),
            },
    {
        let data = match self.tracker.get(component_id) {
            None => {
                return Err("component not tracked".to_owned());
            },
            Some(o) => &o.data,
        };
        let (dyn_id, dyn_secret) = match config {
            Some(c) => (Some(c.client_id), Some(c.client_secret)),
            None => (None, None),
        };
        let client_id = match resolve_field(dyn_id, &data.interface_config, "client-id") {
            Some(v) => v,
            None => {
                return Err(
                    "missing client-id: provide via constructor or interface config".to_owned(),
                );
            },
        };
        let client_secret = match resolve_field(dyn_secret, &data.interface_config, "client-secret") {
            Some(v) => v,
            None => {
                return Err(
                    "missing client-secret: provide via constructor or interface config".to_owned(),
                );
            },
        };
        if data.workload.is_none() {
            return Err("workload not resolved yet".to_owned());
        }
        Ok(DingtalkClientHandle { client_id, client_secret, cancel_token })
    }
}

impl Default for DingTalk {
    fn default() -> (r: DingTalk)
        ensures
            r.tracker@ == Map::<Seq<char>, Owned<ComponentData>>::empty(),
    {
        DingTalk::new()
    }
}

/// What the guest passes to the constructor decides, whatever the static configuration holds.
pub proof fn constructor_config_has_priority(o: Owned<ComponentData>, config: DingtalkConfig)
    requires
        o.data.workload is Some,
    ensures
        client_credentials(Some(o), Some(config)) == Ok::<(Seq<char>, Seq<char>), Seq<char>>(
            (config.client_id@, config.client_secret@),
        ),
{
}

/// A message for the guest says what the service says of it; what is missing is empty or false, and
/// its text is the first one.
pub proof fn messages_say_what_the_service_says(
    m: ChatbotMessage,
    i: IncomingView,
    texts: Option<Seq<Seq<char>>>,
    raw: Seq<char>,
)
    requires
        message_for(m, i, texts, raw),
    ensures
        i.conversation_type is Some ==> m.conversation_type@ == i.conversation_type->0,
        i.conversation_type is None ==> m.conversation_type@.len() == 0,
        i.conversation_id is Some ==> m.conversation_id@ == i.conversation_id->0,
        i.conversation_id is None ==> m.conversation_id@.len() == 0,
        i.sender_id is Some ==> m.sender_id@ == i.sender_id->0,
        i.sender_id is None ==> m.sender_id@.len() == 0,
        i.sender_nick is Some ==> m.sender_nick@ == i.sender_nick->0,
        i.sender_nick is None ==> m.sender_nick@.len() == 0,
        i.message_id is Some ==> m.message_id@ == i.message_id->0,
        i.message_id is None ==> m.message_id@.len() == 0,
        texts is Some && texts->0.len() > 0 ==> m.text_content is Some && m.text_content->0@
            == texts->0[0],
        texts is None || texts->0.len() == 0 ==> m.text_content is None,
        m.is_admin <==> i.is_admin is Some && i.is_admin->0,
        m.is_at <==> i.is_in_at_list is Some && i.is_in_at_list->0,
        m.raw_json@ == raw,
{
}

/// Without credentials of the guest's, a client takes the configured ones; the first that is missing
/// is named, and so is a component that is not tracked or not resolved.
pub proof fn static_config_fills_the_gaps(o: Option<Owned<ComponentData>>)
    ensures
        ({
            let m = o->0.data.interface_config@;
            match client_credentials(o, None) {
                Ok(c) => o is Some && m.contains_key("client-id"@) && c.0 == m["client-id"@]@
                    && m.contains_key("client-secret"@) && c.1 == m["client-secret"@]@
                    && o->0.data.workload is Some,
                Err(e) => if o is None {
                    e == "component not tracked"@
                } else if !m.contains_key("client-id"@) {
                    e == "missing client-id: provide via constructor or interface config"@
                } else if !m.contains_key("client-secret"@) {
                    e == "missing client-secret: provide via constructor or interface config"@
                } else {
                    o->0.data.workload is None && e == "workload not resolved yet"@
                },
            }
        }),
{
}

/// The plugin goes by its own name, and takes and gives the interfaces of its own package.
pub proof fn the_plugin_and_its_world(p: DingTalk, id: &'static str, w: WitWorld)
    requires
        call_ensures(DingTalk::id, (&p,), id),
        call_ensures(DingTalk::world, (&p,), w),
    ensures
        id@ == "dingtalk-stream"@,
        w.imports@.len() == 1,
        w.imports@[0].names("custom"@, "dingtalk-stream"@, seq!["sender"@, "types"@], "0.1.0"@),
        w.exports@.len() == 1,
        w.exports@[0].names("custom"@, "dingtalk-stream"@, seq!["handler"@], "0.1.0"@),
{
}

/// A callback is always acknowledged, and hands on the message where there is one.
pub proof fn callbacks_are_acknowledged(h: GuestCallbackBridge, data: &str, r: CallbackReply)
    requires
        call_ensures(GuestCallbackBridge::process, (&h, data), r),
    ensures
        r.status == 200,
        r.body@ == "OK"@,
        r.message is Some <==> chatbot_message_of(data@) is Some,
        r.message is Some ==> r.message->0.raw_json@ == data@,
{
}

/// A message to answer to is one of its conversation and its sender, in a single chat.
pub proof fn answers_go_to_the_sender(conversation: &str, sender: &str, r: SyntheticMessage)
    requires
        call_ensures(build_synthetic_message, (conversation, sender), r),
    ensures
        r.conversation_id is Some && r.conversation_id->0@ == conversation@,
        r.conversation_type is Some && r.conversation_type->0@ == "1"@,
        r.sender_id is Some && r.sender_id->0@ == sender@,
        r.sender_staff_id is Some && r.sender_staff_id->0@ == sender@,
{
}

/// What fails at the door is a failure to authenticate, whatever was called; else sending fails to
/// send, and getting a token is a fault of the host.
pub proof fn failures_by_kind(
    sent: Result<(), ServiceError>,
    a: Result<(), DingtalkError>,
    got: Result<String, ServiceError>,
    b: Result<String, DingtalkError>,
)
    requires
        call_ensures(send_outcome, (sent,), a),
        call_ensures(token_outcome, (got,), b),
    ensures
        match sent {
            Ok(_) => a is Ok,
            Err(ServiceError::Auth(e)) => a is Err && a->Err_0 == DingtalkError::AuthFailed(e),
            Err(ServiceError::Other(e)) => a is Err && a->Err_0 == DingtalkError::SendFailed(e),
        },
        match got {
            Ok(t) => b is Ok && b->Ok_0 == t,
            Err(ServiceError::Auth(e)) => b is Err && b->Err_0 == DingtalkError::AuthFailed(e),
            Err(ServiceError::Other(e)) => b is Err && b->Err_0 == DingtalkError::Internal(e),
        },
{
}

/// A component that has an interface of the package is tracked for its workload, as one that has just
/// been bound; any other is not, and nothing else changes.
pub proof fn components_are_bound_for_their_workload(
    p: &mut DingTalk,
    id: &str,
    workload: &str,
    is_component: bool,
    interfaces: &Vec<WitInterface>,
    bound: bool,
    other: Seq<char>,
)
    requires
        call_ensures(
            DingTalk::on_workload_item_bind,
            (p, id, workload, is_component, interfaces),
            bound,
        ),
        other != id@,
    ensures
        bound <==> is_component && first_of_package(interfaces@, "custom"@, "dingtalk-stream"@) is Some,
        !bound ==> final(p).tracker@ == old(p).tracker@,
        lookup(final(p).tracker@, other) == lookup(old(p).tracker@, other),
        bound ==> {
            let o = final(p).tracker@[id@];
            &&& final(p).tracker@.contains_key(id@)
            &&& o.workload_id@ == workload@
            &&& o.data.interface_config@ == first_of_package(interfaces@, "custom"@, "dingtalk-stream"@)->0.config@
            &&& o.data.workload is None
        },
{
    if bound {
        crate::table::putting_leaves_the_others(old(p).tracker@, final(p).tracker@, id@, other);
    }
}

} // verus!
