//! Telegram bots: one polling loop for each component, and messages in both directions.
use vstd::prelude::*;
use crate::number::{decimal, i64_text, parse_i64, parsed_i64, signed_decimal, u64_text};
use crate::table::{config_get, data_of, lemma_put, lookup, outside_workload, put_at, setting, Config, Owned, Table, Tracker};
use crate::text::{cat2, copy_opt, opt_view};
use crate::world::{bound_config, first_of_package, one, WitInterface, WitWorld};

verus! {

pub const PLUGIN_ID: &'static str = "telegram";

/// Host-side state of a bot resource: the token of its bot.
pub struct TelegramBotHandle {
    pub bot: String,
}

/// What the plugin keeps for a component.
pub struct ComponentData {
    pub interface_config: Config,
    pub workload: Option<String>,
    pub bot: Option<String>,
    pub poll_cancel_token: Option<u64>,
}

pub struct Telegram {
    pub tracker: Tracker<ComponentData>,
}

/// What to do when a workload has been resolved.
pub enum ResolveAction {
    Nothing,
    /// No bot token is configured: no polling.
    SkipPolling,
    /// Start polling with this bot token.
    StartPolling(String),
}

/// Settings that the guest passes to the bot it makes.
pub struct TelegramConfig {
    pub bot_token: String,
}

pub enum TelegramError {
    SendFailed(String),
}

/// A message as the guest sees it.
pub struct TelegramMessage {
    pub message_id: String,
    pub chat_id: String,
    pub sender_id: String,
    pub sender_username: Option<String>,
    pub text_content: Option<String>,
    pub timestamp: i64,
}

/// The sender of a message.
pub struct Sender {
    pub id: u64,
    pub username: Option<String>,
}

/// A message as it came from the service.
pub struct InboundMessage {
    pub id: i32,
    pub chat_id: i64,
    pub from: Option<Sender>,
    pub text: Option<String>,
    pub timestamp: i64,
}

/// A document to send.
pub struct MediaRequest {
    pub chat_id: i64,
    pub file_path: String,
    pub caption: Option<String>,
}

/// How the component changes when its workload is resolved.
pub open spec fn after_resolve(
    before: ComponentData,
    after: ComponentData,
    workload: Seq<char>,
    token: u64,
    action: ResolveAction,
) -> bool {
    &&& after.interface_config == before.interface_config
    &&& opt_view(after.workload) == Some(workload)
    &&& if before.bot is Some {
        after.bot == before.bot && after.poll_cancel_token == before.poll_cancel_token && action
            is Nothing
    } else {
        match setting(before.interface_config@, "bot_token"@) {
            None => after.bot is None && after.poll_cancel_token == before.poll_cancel_token
                && action is SkipPolling,
            Some(t) => opt_view(after.bot) == Some(t) && after.poll_cancel_token == Some(token)
                && match action {
                ResolveAction::StartPolling(b) => b@ == t,
                _ => false,
            },
        }
    }
}

/// The bot that a component gets: that of the passed configuration, or else the one that runs.
pub open spec fn bot_for(o: Option<Owned<ComponentData>>, config: Option<TelegramConfig>) -> Result<
    Seq<char>,
    Seq<char>,
> {
    match o {
        None => Err("component not tracked"@),
        Some(o) => match config {
            Some(c) => Ok(c.bot_token@),
            None => match o.data.bot {
                Some(b) => Ok(b@),
                None => Err(
                    "telegram bot not started — polling should be running from on_workload_resolved"@,
                ),
            },
        },
    }
}

/// The tokens that stop the polling loops of components.
pub open spec fn poll_tokens(d: Seq<ComponentData>) -> Seq<u64>
    decreases d.len(),
{
    if d.len() == 0 {
        Seq::<u64>::empty()
    } else {
        match d.last().poll_cancel_token {
            Some(t) => poll_tokens(d.drop_last()).push(t),
            None => poll_tokens(d.drop_last()),
        }
    }
}

impl Telegram {
    pub fn new() -> (r: Telegram)
        ensures
            r.tracker@ == Map::<Seq<char>, Owned<ComponentData>>::empty(),
    {
        Telegram { tracker: Table::new() }
    }

    pub fn id(&self) -> (r: &'static str)
        ensures
            r@ == "telegram"@,
    {
        PLUGIN_ID
    }

    pub fn world(&self) -> (r: WitWorld)
        ensures
            r.imports@.len() == 1,
            r.imports@[0].names("custom"@, "telegram"@, seq!["handler"@], "0.1.0"@),
            r.exports@.len() == 1,
            r.exports@[0].names("custom"@, "telegram"@, seq!["sender"@], "0.1.0"@),
    {
        let mut imports: Vec<WitInterface> = Vec::new();
        imports.push(WitInterface::of("custom", "telegram", one("handler"), "0.1.0"));
        let mut exports: Vec<WitInterface> = Vec::new();
        exports.push(WitInterface::of("custom", "telegram", one("sender"), "0.1.0"));
        WitWorld { imports, exports }
    }

    /// Begins to track a component that brings a `custom:telegram` interface.
    pub fn on_workload_item_bind(
        &mut self,
        component_id: &str,
        workload_id: &str,
        is_component: bool,
        interfaces: &Vec<WitInterface>,
    ) -> (bound: bool)
        ensures
            bound == (is_component && first_of_package(interfaces@, "custom"@, "telegram"@)
                is Some),
            !bound ==> final(self).tracker@ == old(self).tracker@,
            bound ==> put_at(old(self).tracker@, final(self).tracker@, component_id@) && ({
                let o = final(self).tracker@[component_id@];
                &&& o.workload_id@ == workload_id@
                &&& o.data.interface_config@ == first_of_package(
                    interfaces@,
                    "custom"@,
                    "telegram"@,
                )->0.config@
                &&& o.data.workload is None
                &&& o.data.bot is None
                &&& o.data.poll_cancel_token is None
            }),
    {
        if let Some(interface_config) = bound_config(interfaces, "custom", "telegram") {
            if is_component {
                let data = ComponentData {
                    interface_config,
                    workload: None,
                    bot: None,
                    poll_cancel_token: None,
                };
                let owned = Owned { workload_id: workload_id.to_owned(), data };
                proof {
                    lemma_put(self.tracker@, component_id@, owned);
                }
                self.tracker.insert(component_id.to_owned(), owned);
                return true;
            }
        }
        false
    }

    /// Notes the workload of a component and starts its polling loop once; `token` is the
    /// cancellation token for that loop.
    pub fn on_workload_resolved(&mut self, workload: &str, component_id: &str, token: u64) -> (r:
        ResolveAction)
        ensures
            match lookup(old(self).tracker@, component_id@) {
                None => r is Nothing && final(self).tracker@ == old(self).tracker@,
                Some(o) => put_at(old(self).tracker@, final(self).tracker@, component_id@)
                    && final(self).tracker@[component_id@].workload_id == o.workload_id
                    && after_resolve(
                    o.data,
                    final(self).tracker@[component_id@].data,
                    workload@,
                    token,
                    r,
                ),
            },
    {
        let ghost before = self.tracker@;
        match self.tracker.remove(component_id) {
            None => {
                assert(before.remove(component_id@) =~= before);
                ResolveAction::Nothing
            },
            Some(o) => {
                let mut data = o.data;
                data.workload = Some(workload.to_owned());
                let mut action = ResolveAction::Nothing;
                if data.bot.is_none() {
                    match config_get(&data.interface_config, "bot_token") {
                        None => {
                            action = ResolveAction::SkipPolling;
                        },
                        Some(t) => {
                            action = ResolveAction::StartPolling(t.clone());
                            data.bot = Some(t);
                            data.poll_cancel_token = Some(token);
                        },
                    }
                }
                let owned = Owned { workload_id: o.workload_id, data };
                proof {
                    lemma_put(before, component_id@, owned);
                }
                self.tracker.insert(component_id.to_owned(), owned);
                action
            },
        }
    }

    /// Forgets the components of a workload; returns the tokens of the loops to stop.
    pub fn on_workload_unbind(&mut self, workload_id: &str) -> (r: Vec<u64>)
        ensures
            final(self).tracker@ == outside_workload(old(self).tracker@, workload_id@),
            r@ == poll_tokens(data_of(old(self).tracker.pairs(), workload_id@)),
    {
        let gone = self.tracker.remove_workload(workload_id);
        let mut tokens: Vec<u64> = Vec::new();
        let mut i: usize = 0;
        while i < gone.len()
            invariant
                i <= gone@.len(),
                tokens@ == poll_tokens(gone@.take(i as int)),
            decreases gone@.len() - i,
        {
            assert(gone@.take(i + 1).drop_last() == gone@.take(i as int));
            if let Some(t) = gone[i].poll_cancel_token {
                tokens.push(t);
            }
            i = i + 1;
        }
        assert(gone@.take(gone@.len() as int) == gone@);
        tokens
    }

    /// A bot resource for a component: the bot of the passed configuration, or else the one that
    /// runs for the component.
    pub fn new_bot(&self, component_id: &str, config: Option<TelegramConfig>) -> (r: Result<
        TelegramBotHandle,
        String,
    >)
        ensures
            match r {
                Ok(h) => bot_for(lookup(self.tracker@, component_id@), config) == Ok::<
                    Seq<char>,
                    Seq<char>,
                >(h.bot@),
                Err(e) => bot_for(lookup(self.tracker@, component_id@), config) == Err::<
                    Seq<char>,
                    Seq<char>,
                >(e@),
            },
    {
        let running = match self.tracker.get(component_id) {
            None => {
                return Err("component not tracked".to_owned());
            },
            Some(o) => &o.data.bot,
        };
        if let Some(c) = config {
            return Ok(TelegramBotHandle { bot: c.bot_token });
        }
        match running {
            None => Err(
                "telegram bot not started — polling should be running from on_workload_resolved".to_owned(),
            ),
            Some(b) => Ok(TelegramBotHandle { bot: b.clone() }),
        }
    }
}

impl Default for Telegram {
    fn default() -> (r: Telegram)
        ensures
            r.tracker@ == Map::<Seq<char>, Owned<ComponentData>>::empty(),
    {
        Telegram::new()
    }
}

/// The chat that a text names, as the service numbers it.
pub fn chat_id_of(chat_id: &str) -> (r: Result<i64, String>)
    ensures
        match r {
            Ok(n) => parsed_i64(chat_id@) == Some(n as int),
            Err(e) => parsed_i64(chat_id@) is None && e@ == "invalid chat_id: "@ + chat_id@,
        },
{
    match parse_i64(chat_id) {
        Some(n) => Ok(n),
        None => Err(cat2("invalid chat_id: ", chat_id)),
    }
}

/// What to send for a document: the outer error is a trap, the inner one goes to the guest.
pub fn media_request(
    chat_id: &str,
    file_path: &str,
    file_exists: bool,
    caption: Option<String>,
) -> (r: Result<Result<MediaRequest, TelegramError>, String>)
    ensures
        match r {
            Err(e) => parsed_i64(chat_id@) is None && e@ == "invalid chat_id: "@ + chat_id@,
            Ok(Err(TelegramError::SendFailed(m))) => parsed_i64(chat_id@) is Some && !file_exists
                && m@ == "file not found: "@ + file_path@,
            Ok(Ok(q)) => file_exists && parsed_i64(chat_id@) == Some(q.chat_id as int)
                && q.file_path@ == file_path@ && q.caption == caption,
        },
{
    match chat_id_of(chat_id) {
        Err(e) => Err(e),
        Ok(n) => if !file_exists {
            Ok(Err(TelegramError::SendFailed(cat2("file not found: ", file_path))))
        } else {
            Ok(Ok(MediaRequest { chat_id: n, file_path: file_path.to_owned(), caption }))
        },
    }
}

/// What the guest is told of a send: a failure carries the message of the service's error.
pub fn send_outcome(sent: Result<(), String>) -> (r: Result<(), TelegramError>)
    ensures
        match sent {
            Ok(_) => r is Ok,
            Err(e) => r == Err::<(), TelegramError>(TelegramError::SendFailed(e)),
        },
{
    match sent {
        Ok(_) => Ok(()),
        Err(e) => Err(TelegramError::SendFailed(e)),
    }
}

/// The message that the guest is handed.
pub fn guest_message(m: &InboundMessage) -> (r: TelegramMessage)
    ensures
        r.message_id@ == signed_decimal(m.id as int),
        r.chat_id@ == signed_decimal(m.chat_id as int),
        match m.from {
            Some(u) => r.sender_id@ == decimal(u.id as nat) && r.sender_username == u.username,
            None => r.sender_id@ == Seq::<char>::empty() && r.sender_username is None,
        },
        r.text_content == m.text,
        r.timestamp == m.timestamp,
{
    let (sender_id, sender_username) = match &m.from {
        Some(u) => (u64_text(u.id), copy_opt(&u.username)),
        None => (String::new(), None),
    };
    TelegramMessage {
        message_id: i64_text(m.id as i64),
        chat_id: i64_text(m.chat_id),
        sender_id,
        sender_username,
        text_content: copy_opt(&m.text),
        timestamp: m.timestamp,
    }
}

/// The chat of a message that came in can be answered: its text names that chat.
pub proof fn inbound_chat_can_be_answered(chat_id: i64)
    ensures
        parsed_i64(signed_decimal(chat_id as int)) == Some(chat_id as int),
{
    crate::number::signed_decimal_reads_back(chat_id);
}

/// Resolving a workload again starts no second polling loop.
pub proof fn polling_starts_once(
    first: ComponentData,
    second: ComponentData,
    third: ComponentData,
    w1: Seq<char>,
    t1: u64,
    a1: ResolveAction,
    w2: Seq<char>,
    t2: u64,
    a2: ResolveAction,
)
    requires
        after_resolve(first, second, w1, t1, a1),
        after_resolve(second, third, w2, t2, a2),
        a1 is StartPolling,
    ensures
        a2 is Nothing,
        third.bot == second.bot,
        third.poll_cancel_token == Some(t1),
{
}

/// The configuration that the guest passes has priority over the bot that runs.
pub proof fn constructor_config_has_priority(o: Owned<ComponentData>, config: TelegramConfig)
    ensures
        bot_for(Some(o), Some(config)) == Ok::<Seq<char>, Seq<char>>(config.bot_token@),
{
}

/// A resolved component polls with its configured token, once; without a token it does not poll, and
/// with a bot that runs nothing changes.
pub proof fn polling_takes_the_configured_token(
    before: ComponentData,
    after: ComponentData,
    workload: Seq<char>,
    token: u64,
    action: ResolveAction,
)
    requires
        after_resolve(before, after, workload, token, action),
    ensures
        after.workload is Some && after.workload->0@ == workload,
        after.interface_config == before.interface_config,
        before.bot is Some ==> action is Nothing && after.bot == before.bot && after.poll_cancel_token
            == before.poll_cancel_token,
        before.bot is None && !before.interface_config@.contains_key("bot_token"@) ==> action
            is SkipPolling && after.bot is None && after.poll_cancel_token == before.poll_cancel_token,
        before.bot is None && before.interface_config@.contains_key("bot_token"@) ==> {
            let t = before.interface_config@["bot_token"@]@;
            &&& action is StartPolling && action->StartPolling_0@ == t
            &&& after.bot is Some && after.bot->0@ == t
            &&& after.poll_cancel_token == Some(token)
        },
{
}

/// A bot without settings of the guest's is the one that polls; there is none before polling starts,
/// nor for a component that is not tracked.
pub proof fn bots_are_those_that_poll(o: Option<Owned<ComponentData>>)
    ensures
        match bot_for(o, None) {
            Ok(b) => o is Some && o->0.data.bot is Some && b == o->0.data.bot->0@,
            Err(e) => if o is None {
                e == "component not tracked"@
            } else {
                o->0.data.bot is None && e
                    == "telegram bot not started — polling should be running from on_workload_resolved"@
            },
        },
{
}

/// Unbinding gives back the tokens of the loops that run, in order.
pub proof fn every_loop_is_cancelled(d: Seq<ComponentData>, more: ComponentData)
    ensures
        more.poll_cancel_token is Some ==> poll_tokens(d.push(more)) == poll_tokens(d).push(
            more.poll_cancel_token->0,
        ),
        more.poll_cancel_token is None ==> poll_tokens(d.push(more)) == poll_tokens(d),
        poll_tokens(Seq::<ComponentData>::empty()).len() == 0,
{
    assert(d.push(more).drop_last() =~= d);
}

/// The plugin goes by its own name, and takes and gives the interfaces of its own package.
pub proof fn the_plugin_and_its_world(p: Telegram, id: &'static str, w: WitWorld)
    requires
        call_ensures(Telegram::id, (&p,), id),
        call_ensures(Telegram::world, (&p,), w),
    ensures
        id@ == "telegram"@,
        w.imports@.len() == 1,
        w.imports@[0].names("custom"@, "telegram"@, seq!["handler"@], "0.1.0"@),
        w.exports@.len() == 1,
        w.exports@[0].names("custom"@, "telegram"@, seq!["sender"@], "0.1.0"@),
{
}

/// A message for the guest says what came: its ids in digits, its sender where it has one, its text
/// and its time.
pub proof fn messages_say_what_came(m: InboundMessage, r: TelegramMessage)
    requires
        call_ensures(guest_message, (&m,), r),
    ensures
        r.message_id@ == signed_decimal(m.id as int),
        parsed_i64(r.chat_id@) == Some(m.chat_id as int),
        m.from is Some ==> r.sender_id@ == decimal(m.from->0.id as nat) && r.sender_username
            == m.from->0.username,
        m.from is None ==> r.sender_id@.len() == 0 && r.sender_username is None,
        r.text_content == m.text,
        r.timestamp == m.timestamp,
{
    inbound_chat_can_be_answered(m.chat_id);
}

/// The chat of a message can be answered to: its id is read back as the chat it came from.
pub proof fn chats_are_read_back(m: InboundMessage, r: TelegramMessage, id: &str, c: Result<i64, String>)
    requires
        call_ensures(guest_message, (&m,), r),
        id@ == r.chat_id@,
        call_ensures(chat_id_of, (id,), c),
    ensures
        c == Ok::<i64, String>(m.chat_id),
{
    inbound_chat_can_be_answered(m.chat_id);
}

/// A file is sent to its chat with its caption where it is there; one that is not fails to be sent,
/// and a chat that is no number is an error of the call.
pub proof fn files_are_sent_where_they_are_there(
    chat: &str,
    path: &str,
    there: bool,
    caption: Option<String>,
    r: Result<Result<MediaRequest, TelegramError>, String>,
)
    requires
        call_ensures(media_request, (chat, path, there, caption), r),
    ensures
        parsed_i64(chat@) is None ==> r is Err && r->Err_0@ == "invalid chat_id: "@ + chat@,
        parsed_i64(chat@) is Some && !there ==> match r {
            Ok(Err(TelegramError::SendFailed(m))) => m@ == "file not found: "@ + path@,
            _ => false,
        },
        parsed_i64(chat@) is Some && there ==> match r {
            Ok(Ok(q)) => q.chat_id == parsed_i64(chat@)->0 && q.file_path@ == path@ && q.caption
                == caption,
            _ => false,
        },
{
}

/// A component that has an interface of the package is tracked for its workload, as one that has just
/// been bound; any other is not, and nothing else changes.
pub proof fn components_are_bound_for_their_workload(
    p: &mut Telegram,
    id: &str,
    workload: &str,
    is_component: bool,
    interfaces: &Vec<WitInterface>,
    bound: bool,
    other: Seq<char>,
)
    requires
        call_ensures(
            Telegram::on_workload_item_bind,
            (p, id, workload, is_component, interfaces),
            bound,
        ),
        other != id@,
    ensures
        bound <==> is_component && first_of_package(interfaces@, "custom"@, "telegram"@) is Some,
        !bound ==> final(p).tracker@ == old(p).tracker@,
        lookup(final(p).tracker@, other) == lookup(old(p).tracker@, other),
        bound ==> {
            let o = final(p).tracker@[id@];
            &&& final(p).tracker@.contains_key(id@)
            &&& o.workload_id@ == workload@
            &&& o.data.interface_config@ == first_of_package(interfaces@, "custom"@, "telegram"@)->0.config@
            &&& o.data.workload is None && o.data.bot is None && o.data.poll_cancel_token is None
        },
{
    if bound {
        crate::table::putting_leaves_the_others(old(p).tracker@, final(p).tracker@, id@, other);
    }
}

} // verus!
